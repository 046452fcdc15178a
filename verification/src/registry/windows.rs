//! The registration of the launcher in the Windows registry.

use vstd::prelude::*;
use widestring::U16CString;
use crate::path;
use crate::path::{styled_join, styled_parent, PathStyle};
use crate::registry::error::RegistryError;
use crate::text;
use crate::text::{cat, cat3, chars_of, same, string_range};
use crate::unicode;
use crate::unicode::{text_of_utf16, utf16_with_nul};

verus! {

/// The path of 32-bit programs' keys, for a launcher of 64 bits.
pub const REG_ARCH_PATH: &'static str = "SOFTWARE\\WOW6432Node";

/// The path of 32-bit programs' keys, for a launcher of 32 bits.
pub const REG_ARCH_PATH_32: &'static str = "SOFTWARE";

/// The key of EA Desktop.
pub const REG_EAX32_PATH: &'static str = "SOFTWARE\\Electronic Arts\\EA Desktop";

/// The system's number for an action that the user cancelled.
pub const ERROR_CANCELLED: u32 = 1223;

/// The roots of the registry that the launcher uses.
#[derive(Clone, Copy, PartialEq, Eq, Structural, Debug)]
pub enum RegRoot {
    LocalMachine,
    ClassesRoot,
}

/// A value to write below a key, which is created where it does not exist.
pub struct RegWrite {
    pub root: RegRoot,
    pub key: String,
    pub name: String,
    pub data: String,
}

/// A value to write, with texts.
pub ghost struct Write {
    pub root: RegRoot,
    pub key: Seq<char>,
    pub name: Seq<char>,
    pub data: Seq<char>,
}

impl View for RegWrite {
    type V = Write;

    open spec fn view(&self) -> Write {
        Write { root: self.root, key: self.key@, name: self.name@, data: self.data@ }
    }
}

/// Some values to write, with texts.
pub open spec fn write_views(v: Seq<RegWrite>) -> Seq<Write> {
    v.map_values(|w: RegWrite| w@)
}

/// The path of the bootstrap program; a program without a parent gives nothing.
pub fn bootstrap_path(program: &str) -> (r: Option<String>)
    ensures
        text::opt_string(r) == (match path::parent_in(PathStyle::Windows, program@) {
            Some(dir) => Some(path::join_in(PathStyle::Windows, dir, "maxima-bootstrap.exe"@)),
            None => None,
        }),
{
    match styled_parent(PathStyle::Windows, program) {
        Some(dir) => Some(styled_join(PathStyle::Windows, dir.as_str(), "maxima-bootstrap.exe")),
        None => None,
    }
}

/// The key of the client, below the path of 32-bit programs' keys.
pub open spec fn origin_key(arch_path: Seq<char>) -> Seq<char> {
    arch_path + "\\Origin"@
}

/// The values that register a program for a protocol.
pub open spec fn protocol_writes(
    protocol: Seq<char>,
    name: Seq<char>,
    executable: Seq<char>,
) -> Seq<Write> {
    seq![
        Write { root: RegRoot::ClassesRoot, key: protocol, name: ""@, data: "URL:"@ + name },
        Write { root: RegRoot::ClassesRoot, key: protocol, name: "URL Protocol"@, data: ""@ },
        Write {
            root: RegRoot::ClassesRoot,
            key: protocol + "\\shell\\open\\command"@,
            name: ""@,
            data: "\""@ + executable + "\" \"%1\""@,
        },
    ]
}

/// The values that register a program for a protocol, in order.
pub fn register_custom_protocol(protocol: &str, name: &str, executable: &str) -> (r: Vec<RegWrite>)
    ensures
        write_views(r@) == protocol_writes(protocol@, name@, executable@),
{
    let writes = vec![
        RegWrite {
            root: RegRoot::ClassesRoot,
            key: protocol.to_owned(),
            name: "".to_owned(),
            data: cat("URL:", name),
        },
        RegWrite {
            root: RegRoot::ClassesRoot,
            key: protocol.to_owned(),
            name: "URL Protocol".to_owned(),
            data: "".to_owned(),
        },
        RegWrite {
            root: RegRoot::ClassesRoot,
            key: cat(protocol, "\\shell\\open\\command"),
            name: "".to_owned(),
            data: cat3("\"", executable, "\" \"%1\""),
        },
    ];
    assert(write_views(writes@) =~= protocol_writes(protocol@, name@, executable@));
    writes
}

/// The values that register the launcher: as the client, as installed, and for the protocol
/// that the sign-in comes back through.
pub open spec fn setup_writes(arch_path: Seq<char>, bootstrap: Seq<char>) -> Seq<Write> {
    seq![
        Write {
            root: RegRoot::LocalMachine,
            key: origin_key(arch_path),
            name: "ClientPath"@,
            data: bootstrap,
        },
        Write {
            root: RegRoot::LocalMachine,
            key: REG_EAX32_PATH@,
            name: "InstallSuccessful"@,
            data: "true"@,
        },
    ] + protocol_writes("qrc"@, "Maxima Protocol"@, bootstrap)
}

/// The values that register the launcher, in order.
pub fn set_up_registry(arch_path: &str, bootstrap: &str) -> (r: Vec<RegWrite>)
    ensures
        write_views(r@) == setup_writes(arch_path@, bootstrap@),
{
    let mut writes = vec![
        RegWrite {
            root: RegRoot::LocalMachine,
            key: cat(arch_path, "\\Origin"),
            name: "ClientPath".to_owned(),
            data: bootstrap.to_owned(),
        },
        RegWrite {
            root: RegRoot::LocalMachine,
            key: REG_EAX32_PATH.to_owned(),
            name: "InstallSuccessful".to_owned(),
            data: "true".to_owned(),
        },
    ];
    let ghost head = writes@;
    let mut protocol = register_custom_protocol("qrc", "Maxima Protocol", bootstrap);
    let ghost tail = protocol@;
    writes.append(&mut protocol);
    assert(write_views(writes@) =~= write_views(head) + write_views(tail));
    assert(write_views(writes@) =~= setup_writes(arch_path@, bootstrap@));
    writes
}

/// How far the check of the registration is.
#[derive(Clone, Copy, PartialEq, Eq, Structural, Debug)]
pub enum ValidityStep {
    Valid,
    /// `InstallSuccessful` of the key of EA Desktop has to be read.
    ReadInstallSuccessful,
    /// It has to be seen whether the protocol `qrc` has a key.
    FindProtocol,
}

/// Whether the launcher is registered, from its path, the `ClientPath` that is stored, and
/// what was read after that so far. The first thing that is wrong counts.
pub fn check_registry_validity(
    bootstrap: &str,
    client_path: &str,
    install_successful: Option<&str>,
    has_protocol: Option<bool>,
) -> (r: Result<ValidityStep, RegistryError>)
    ensures
        match r {
            Err(RegistryError::InvalidStoredClientPath) => client_path@ != bootstrap@,
            Ok(ValidityStep::ReadInstallSuccessful) => client_path@ == bootstrap@
                && install_successful is None,
            Err(RegistryError::InvalidInstallKey) => client_path@ == bootstrap@
                && install_successful is Some && install_successful.unwrap()@ != "true"@,
            Ok(ValidityStep::FindProtocol) => client_path@ == bootstrap@ && text::opt_str(
                install_successful,
            ) == Some("true"@) && has_protocol is None,
            Err(RegistryError::InvalidQrcProtocol) => client_path@ == bootstrap@ && text::opt_str(
                install_successful,
            ) == Some("true"@) && has_protocol == Some(false),
            Ok(ValidityStep::Valid) => client_path@ == bootstrap@ && text::opt_str(
                install_successful,
            ) == Some("true"@) && has_protocol == Some(true),
            Err(_) => false,
        },
{
    if !same(client_path, bootstrap) {
        return Err(RegistryError::InvalidStoredClientPath);
    }
    match install_successful {
        None => return Ok(ValidityStep::ReadInstallSuccessful),
        Some(s) => if !same(s, "true") {
            return Err(RegistryError::InvalidInstallKey);
        },
    }
    match has_protocol {
        None => Ok(ValidityStep::FindProtocol),
        Some(true) => Ok(ValidityStep::Valid),
        Some(false) => Err(RegistryError::InvalidQrcProtocol),
    }
}

/// The keys that a game may be registered under, in the order in which they are tried.
pub fn game_keys(name: &str) -> (r: (String, String))
    ensures
        r.0@ == "SOFTWARE\\EA Games\\"@ + name@,
        r.1@ == "SOFTWARE\\WOW6432Node\\EA Games\\"@ + name@,
{
    (cat("SOFTWARE\\EA Games\\", name), cat("SOFTWARE\\WOW6432Node\\EA Games\\", name))
}

/// The key whose `Install Dir` is the path of a game, from whether each of its keys exists.
pub fn read_game_path(name: &str, first_exists: bool, second_exists: bool) -> (r: Result<
    String,
    RegistryError,
>)
    ensures
        match r {
            Ok(key) => (first_exists || second_exists) && key@ == (if first_exists {
                "SOFTWARE\\EA Games\\"@
            } else {
                "SOFTWARE\\WOW6432Node\\EA Games\\"@
            }) + name@,
            Err(RegistryError::Key(key)) => !first_exists && !second_exists && key@
                == "SOFTWARE\\EA Games\\"@ + name@,
            Err(_) => false,
        },
{
    let (first, second) = game_keys(name);
    if first_exists {
        Ok(first)
    } else if second_exists {
        Ok(second)
    } else {
        Err(RegistryError::Key(first))
    }
}

/// What the system is told to run the bootstrap program with more rights, in UTF-16 with a
/// zero at the end of each text.
pub struct ElevationPlan {
    pub verb: Vec<u16>,
    pub file: Vec<u16>,
    pub parameters: Vec<u16>,
}

/// What the system is told to run the bootstrap program with more rights.
pub fn launch_bootstrap(bootstrap: &str) -> (r: ElevationPlan)
    ensures
        r.verb@ == unicode::utf16("runas"@).push(0),
        r.file@ == unicode::utf16(bootstrap@).push(0),
        r.parameters@ == unicode::utf16(""@).push(0),
{
    ElevationPlan {
        verb: utf16_with_nul("runas"),
        file: utf16_with_nul(bootstrap),
        parameters: utf16_with_nul(""),
    }
}

/// What came of it, from the last error that the system reports.
pub fn bootstrap_launched(bootstrap: &str, last_error: u32) -> (r: Result<(), RegistryError>)
    ensures
        match r {
            Ok(_) => last_error != ERROR_CANCELLED,
            Err(RegistryError::Elevation(file)) => last_error == ERROR_CANCELLED && file@
                == bootstrap@,
            Err(_) => false,
        },
{
    if last_error == ERROR_CANCELLED {
        Err(RegistryError::Elevation(bootstrap.to_owned()))
    } else {
        Ok(())
    }
}

/// Whether the first zero unit stands at `i`.
pub open spec fn zero_first(units: Seq<u16>, i: int) -> bool {
    0 <= i < units.len() && units[i] == 0 && forall|j: int|
        0 <= j < i ==> #[trigger] units[j] != 0
}

/// Whether UTF-16 units hold a zero before their last place, where the first zero stands.
pub open spec fn zero_inside(units: Seq<u16>, i: int) -> bool {
    zero_first(units, i) && i != units.len() - 1
}

/// UTF-16 units with a zero at the end.
pub open spec fn zero_ended(units: Seq<u16>) -> Seq<u16> {
    if units.len() > 0 && units.last() == 0 {
        units
    } else {
        units.push(0)
    }
}

/// Calls `U16CString::from_str`, which encodes a text in UTF-16 and sees to it that it ends
/// with a zero. A zero anywhere else is an error that tells where the first one is.
#[verifier::external_body]
fn wide_text(s: &str) -> (r: Result<Vec<u16>, usize>)
    ensures
        match r {
            Ok(units) => units@ == zero_ended(unicode::utf16(s@)) && forall|i: int|
                !#[trigger] zero_inside(unicode::utf16(s@), i),
            Err(i) => zero_inside(unicode::utf16(s@), i as int),
        },
{
    match U16CString::from_str(s) {
        Ok(w) => Ok(w.into_vec_with_nul()),
        Err(e) => Err(e.nul_position()),
    }
}

/// Whether the character stands at `i` and nowhere after.
pub open spec fn char_last(s: Seq<char>, c: char, i: int) -> bool {
    0 <= i < s.len() && s[i] == c && forall|j: int| i < j < s.len() ==> s[j] != c
}

/// Whether a path has the key and the name of its value in these places: the key between its
/// first and its last backslash, the name after that.
pub open spec fn located(p: Seq<char>, sub_key: Seq<char>, value_name: Seq<char>) -> bool {
    exists|i: int, j: int|
        #![trigger text::char_first(p, '\\', i), char_last(p, '\\', j)]
        text::char_first(p, '\\', i) && char_last(p, '\\', j) && i < j && sub_key == p.subrange(
            i + 1,
            j,
        ) && value_name == p.skip(j + 1)
}

/// Whether a path has exactly one backslash.
pub open spec fn one_backslash(p: Seq<char>) -> bool {
    exists|i: int| text::char_first(p, '\\', i) && #[trigger] char_last(p, '\\', i)
}

/// The reading of a value.
pub struct RegRead {
    sub_key: String,
    value_name: String,
}

impl RegRead {
    /// The key of the value.
    pub closed spec fn key(self) -> Seq<char> {
        self.sub_key@
    }

    /// The name of the value.
    pub closed spec fn name(self) -> Seq<char> {
        self.value_name@
    }

    /// Whether the error is that the value cannot be read.
    pub open spec fn is_value_error(self, e: RegistryError) -> bool {
        e matches RegistryError::Value { value, key } && value@ == self.name() && key@ == self.key()
    }

    fn value_error(&self) -> (r: RegistryError)
        ensures
            self.is_value_error(r),
    {
        RegistryError::Value { value: self.value_name.clone(), key: self.sub_key.clone() }
    }

    /// After the key was opened, or not: the name of the value in UTF-16, to ask for its
    /// size.
    pub fn opened(&self, status: u32) -> (r: Result<Vec<u16>, RegistryError>)
        ensures
            match r {
                Err(RegistryError::Key(k)) => status != 0 && k@ == self.key(),
                Err(RegistryError::ContainsNul(i)) => status == 0 && zero_inside(
                    unicode::utf16(self.name()),
                    i as int,
                ),
                Ok(units) => status == 0 && units@ == zero_ended(unicode::utf16(self.name()))
                    && forall|i: int| !#[trigger] zero_inside(unicode::utf16(self.name()), i),
                Err(_) => false,
            },
    {
        if status != 0 {
            return Err(RegistryError::Key(self.sub_key.clone()));
        }
        match wide_text(self.value_name.as_str()) {
            Ok(units) => Ok(units),
            Err(i) => Err(RegistryError::ContainsNul(i)),
        }
    }

    /// After the size of the value in bytes was asked for: the number of UTF-16 units to
    /// read. A value of one byte holds no unit.
    pub fn sized(&self, status: u32, size: u32) -> (r: Result<usize, RegistryError>)
        requires
            status == 0 ==> size != 1,
        ensures
            match r {
                Ok(n) => status == 0 && size > 0 && n == size / 2 && n > 0,
                Err(e) => (status != 0 || size == 0) && self.is_value_error(e),
            },
    {
        if status != 0 || size == 0 {
            return Err(self.value_error());
        }
        Ok((size / 2) as usize)
    }

    /// After the value was read into the units: its text, without the zero at its end.
    pub fn finished(&self, status: u32, units: &Vec<u16>) -> (r: Result<String, RegistryError>)
        requires
            units@.len() > 0,
        ensures
            match r {
                Ok(value) => status == 0 && value@ == unicode::utf16_lossy(units@.drop_last()),
                Err(e) => status != 0 && self.is_value_error(e),
            },
    {
        if status != 0 {
            return Err(self.value_error());
        }
        let n: usize = units.len() - 1;
        let text_units = &units.as_slice()[0..n];
        assert(text_units@ =~= units@.drop_last());
        Ok(text_of_utf16(text_units))
    }
}

/// Begins to read the value that a path names: the key in UTF-16, to be opened. A path
/// without a backslash names none.
pub fn read_reg_key(p: &str) -> (r: Result<Option<(RegRead, Vec<u16>)>, RegistryError>)
    requires
        !one_backslash(p@),
    ensures
        match r {
            Ok(None) => !p@.contains('\\'),
            Ok(Some((read, units))) => located(p@, read.key(), read.name()) && units@ == zero_ended(
                unicode::utf16(read.key()),
            ) && forall|i: int| !#[trigger] zero_inside(unicode::utf16(read.key()), i),
            Err(RegistryError::ContainsNul(n)) => exists|key: Seq<char>, name: Seq<char>| #[trigger]
                located(p@, key, name) && zero_inside(unicode::utf16(key), n as int),
            Err(_) => false,
        },
{
    let v = chars_of(p);
    let n: usize = v.len();
    let first = match text::find_in(v.as_slice(), '\\') {
        Some(i) => i,
        None => return Ok(None),
    };
    let mut last: usize = n - 1;
    while v[last] != '\\'
        invariant
            first <= last < n,
            n == v@.len(),
            v@[first as int] == '\\',
            forall|j: int| last < j < n ==> v@[j] != '\\',
        decreases last,
    {
        last -= 1;
    }
    assert(char_last(p@, '\\', last as int));
    assert(text::char_first(p@, '\\', first as int));
    assert(first < last);
    let sub_key = string_range(v.as_slice(), first + 1, last);
    let value_name = string_range(v.as_slice(), last + 1, n);
    assert(value_name@ =~= p@.skip(last + 1));
    assert(located(p@, sub_key@, value_name@));
    match wide_text(sub_key.as_str()) {
        Ok(units) => Ok(Some((RegRead { sub_key, value_name }, units))),
        Err(i) => Err(RegistryError::ContainsNul(i)),
    }
}

/// A path names one value at most.
pub proof fn one_value_is_named(
    p: Seq<char>,
    key1: Seq<char>,
    name1: Seq<char>,
    key2: Seq<char>,
    name2: Seq<char>,
)
    requires
        located(p, key1, name1),
        located(p, key2, name2),
    ensures
        key1 == key2,
        name1 == name2,
{
    let (i1, j1) = choose|i: int, j: int|
        #![trigger text::char_first(p, '\\', i), char_last(p, '\\', j)]
        text::char_first(p, '\\', i) && char_last(p, '\\', j) && i < j && key1 == p.subrange(
            i + 1,
            j,
        ) && name1 == p.skip(j + 1);
    let (i2, j2) = choose|i: int, j: int|
        #![trigger text::char_first(p, '\\', i), char_last(p, '\\', j)]
        text::char_first(p, '\\', i) && char_last(p, '\\', j) && i < j && key2 == p.subrange(
            i + 1,
            j,
        ) && name2 == p.skip(j + 1);
    assert(i1 == i2);
    assert(j1 == j2);
}

/// The values of a registry: by root, key and name.
pub type Values = Map<(RegRoot, Seq<char>, Seq<char>), Seq<char>>;

/// A registry after some writes.
pub open spec fn written(values: Values, writes: Seq<Write>) -> Values
    decreases writes.len(),
{
    if writes.len() == 0 {
        values
    } else {
        let w = writes.last();
        written(values, writes.drop_last()).insert((w.root, w.key, w.name), w.data)
    }
}

/// After the launcher was registered, the registry holds what the check of the registration
/// reads: the path of the launcher, the success of the installation, and the protocol.
pub proof fn setup_passes_the_check(values: Values, arch_path: Seq<char>, bootstrap: Seq<char>)
    ensures
        ({
            let after = written(values, setup_writes(arch_path, bootstrap));
            let client = (RegRoot::LocalMachine, origin_key(arch_path), "ClientPath"@);
            let install = (RegRoot::LocalMachine, REG_EAX32_PATH@, "InstallSuccessful"@);
            let protocol = (RegRoot::ClassesRoot, "qrc"@, "URL Protocol"@);
            &&& after.contains_key(client) && after[client] == bootstrap
            &&& after.contains_key(install) && after[install] == "true"@
            &&& after.contains_key(protocol)
        }),
{
    let writes = setup_writes(arch_path, bootstrap);
    reveal_strlit("ClientPath");
    reveal_strlit("InstallSuccessful");
    reveal_strlit("qrc");
    reveal_strlit("URL Protocol");
    reveal_strlit("\\shell\\open\\command");
    assert(writes.take(0) =~= Seq::empty());
    assert(writes.take(5) =~= writes);
    assert(writes.take(5).drop_last() =~= writes.take(4));
    assert(writes.take(4).drop_last() =~= writes.take(3));
    assert(writes.take(3).drop_last() =~= writes.take(2));
    assert(writes.take(2).drop_last() =~= writes.take(1));
    assert(writes.take(1).drop_last() =~= writes.take(0));
    let one = written(values, writes.take(1));
    let two = written(values, writes.take(2));
    let three = written(values, writes.take(3));
    let four = written(values, writes.take(4));
    assert("qrc"@.len() != ("qrc"@ + "\\shell\\open\\command"@).len());
    assert("ClientPath"@.len() != "InstallSuccessful"@.len());
}

/// After a protocol was registered, its command opens the program with the address in quotes,
/// and the protocol is marked as one.
pub proof fn registered_protocol_opens_the_program(
    values: Values,
    protocol: Seq<char>,
    name: Seq<char>,
    executable: Seq<char>,
)
    ensures
        ({
            let after = written(values, protocol_writes(protocol, name, executable));
            let command = (
                RegRoot::ClassesRoot,
                protocol + "\\shell\\open\\command"@,
                Seq::<char>::empty(),
            );
            let mark = (RegRoot::ClassesRoot, protocol, "URL Protocol"@);
            let title = (RegRoot::ClassesRoot, protocol, Seq::<char>::empty());
            &&& after.contains_key(command) && after[command] == seq!['"'] + executable + seq![
                '"',
                ' ',
                '"',
                '%',
                '1',
                '"',
            ]
            &&& after.contains_key(mark) && after[mark].len() == 0
            &&& after.contains_key(title) && after[title] == "URL:"@ + name
            &&& forall|k: (RegRoot, Seq<char>, Seq<char>)|
                k != command && k != mark && k != title ==> (#[trigger] after.contains_key(k)
                    <==> values.contains_key(k)) && (after.contains_key(k) ==> after[k]
                    == values[k])
        }),
{
    let writes = protocol_writes(protocol, name, executable);
    reveal_strlit("");
    reveal_strlit("URL Protocol");
    reveal_strlit("\\shell\\open\\command");
    reveal_strlit("\"");
    reveal_strlit("\" \"%1\"");
    assert(""@ =~= Seq::empty());
    assert("\""@ =~= seq!['"']);
    assert("\" \"%1\""@ =~= seq!['"', ' ', '"', '%', '1', '"']);
    assert(writes.take(3) =~= writes);
    assert(writes.take(3).drop_last() =~= writes.take(2));
    assert(writes.take(2).drop_last() =~= writes.take(1));
    assert(writes.take(1).drop_last() =~= writes.take(0));
    assert(writes.take(0) =~= Seq::empty());
    let w0 = writes[0];
    let w1 = writes[1];
    let w2 = writes[2];
    let one = values.insert((w0.root, w0.key, w0.name), w0.data);
    let two = one.insert((w1.root, w1.key, w1.name), w1.data);
    let three = two.insert((w2.root, w2.key, w2.name), w2.data);
    assert(written(values, writes.take(0)) == values);
    assert(written(values, writes.take(1)) == one);
    assert(written(values, writes.take(2)) == two);
    assert(written(values, writes) == three);
    assert("URL Protocol"@.len() == 12);
    assert((protocol + "\\shell\\open\\command"@).len() != protocol.len());
}

/// The registration of the launcher on Windows takes over the protocol of the sign-in with the
/// launcher's own program, and writes the client below the given path.
pub proof fn launcher_takes_over_the_sign_in(arch_path: Seq<char>, bootstrap: Seq<char>)
    ensures
        ({
            let writes = setup_writes(arch_path, bootstrap);
            &&& writes.skip(2) == protocol_writes("qrc"@, "Maxima Protocol"@, bootstrap)
            &&& writes[0].key == arch_path + "\\Origin"@
            &&& writes[0].data == bootstrap
        }),
{
    assert(setup_writes(arch_path, bootstrap).skip(2) =~= protocol_writes(
        "qrc"@,
        "Maxima Protocol"@,
        bootstrap,
    ));
}

/// A path of a root, a key and a name leads to that key and that name. The root and the name hold
/// no backslash; the key may hold any.
pub proof fn key_and_name_are_read_back(root: Seq<char>, key: Seq<char>, name: Seq<char>)
    requires
        !root.contains('\\'),
        !name.contains('\\'),
    ensures
        located(root + seq!['\\'] + key + seq!['\\'] + name, key, name),
{
    let p = root + seq!['\\'] + key + seq!['\\'] + name;
    let i = root.len() as int;
    let j = i + 1 + key.len();
    assert(text::char_first(p, '\\', i)) by {
        assert forall|k: int| 0 <= k < i implies p[k] != '\\' by {
            assert(root[k] == p[k]);
        }
    }
    assert(char_last(p, '\\', j)) by {
        assert forall|k: int| j < k < p.len() implies p[k] != '\\' by {
            assert(name[k - j - 1] == p[k]);
        }
    }
    assert(p.subrange(i + 1, j) =~= key);
    assert(p.skip(j + 1) =~= name);
}

/// Units that are handed to the system end with a zero, and hold what they held before.
pub proof fn units_end_with_a_zero(units: Seq<u16>)
    ensures
        zero_ended(units).len() > 0,
        zero_ended(units).last() == 0,
        units.len() == 0 || units.last() != 0 ==> zero_ended(units).drop_last() == units,
        units.len() > 0 && units.last() == 0 ==> zero_ended(units) == units,
{
    assert(units.push(0).drop_last() =~= units);
}

/// A path has one backslash where nothing before it and nothing behind it is one.
pub proof fn one_backslash_stands_alone(a: Seq<char>, b: Seq<char>)
    ensures
        one_backslash(a + seq!['\\'] + b) <==> !a.contains('\\') && !b.contains('\\'),
{
    let p = a + seq!['\\'] + b;
    let n = a.len() as int;
    assert(p[n] == '\\');
    if a.contains('\\') {
        let k = choose|k: int| 0 <= k < a.len() && a[k] == '\\';
        assert(p[k] == '\\');
    }
    if b.contains('\\') {
        let k = choose|k: int| 0 <= k < b.len() && b[k] == '\\';
        assert(p[n + 1 + k] == '\\');
    }
    if !a.contains('\\') && !b.contains('\\') {
        assert forall|j: int| 0 <= j < n implies p[j] != '\\' by {
            assert(p[j] == a[j]);
        }
        assert forall|j: int| n < j < p.len() implies p[j] != '\\' by {
            assert(p[j] == b[j - n - 1]);
        }
        assert(text::char_first(p, '\\', n) && char_last(p, '\\', n));
    }
}

} // verus!
