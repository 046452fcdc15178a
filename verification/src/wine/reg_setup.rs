//! The registry values that the game needs before it starts, and the flows that write and
//! check them through `reg.exe`.

use vstd::prelude::*;
use crate::number;
use crate::number::decimal_text;
use crate::text;
use crate::text::{cat, cat3, contains, holds, join_texts, lines_of, trim};
use crate::wine::command::{CommandType, WineRequest};
use crate::wine::reg_files;

verus! {

/// A value to write: key, name, data and the registry view (`/reg:32` or `/reg:64`).
pub struct RegEntry {
    pub key: String,
    pub name: String,
    pub data: String,
    pub view: String,
}

/// `RegEntry` with texts in place of strings.
pub ghost struct Entry {
    pub key: Seq<char>,
    pub name: Seq<char>,
    pub data: Seq<char>,
    pub view: Seq<char>,
}

impl View for RegEntry {
    type V = Entry;

    open spec fn view(&self) -> Entry {
        Entry { key: self.key@, name: self.name@, data: self.data@, view: self.view@ }
    }
}

/// The texts of a list of entries.
pub open spec fn entry_views(v: Seq<RegEntry>) -> Seq<Entry> {
    v.map_values(|e: RegEntry| e@)
}

/// An entry of the 64-bit view.
pub open spec fn entry64(key: Seq<char>, name: Seq<char>, data: Seq<char>) -> Entry {
    Entry { key, name, data, view: "/reg:64"@ }
}

/// An entry of the 32-bit view.
pub open spec fn entry32(key: Seq<char>, name: Seq<char>, data: Seq<char>) -> Entry {
    Entry { key, name, data, view: "/reg:32"@ }
}

/// The four values that the game reads when it checks its entitlement.
pub open spec fn locale_entries() -> Seq<Entry> {
    seq![
        entry64("HKCU\\Control Panel\\International"@, "Locale"@, "00000409"@),
        entry64("HKCU\\Control Panel\\International"@, "LocaleName"@, "en-US"@),
        entry64("HKCU\\Control Panel\\International"@, "sLanguage"@, "ENU"@),
        entry64("HKCU\\Software\\Valve\\Steam"@, "language"@, "english"@),
    ]
}

/// All values that the registry setup writes, in this order: later ones win. The catalog
/// entry of the game is written in both views, because the game and the client shim disagree
/// on which one they read, and in the 32-bit branch by its own path too, because the
/// redirection to it is not reliable.
pub open spec fn setup_entries() -> Seq<Entry> {
    seq![
        entry64("HKLM\\Software\\Electronic Arts\\EA Desktop"@, "InstallSuccessful"@, "true"@),
        entry32("HKLM\\Software\\Origin"@, "ClientPath"@, "C:/Windows/System32/conhost.exe"@),
        entry32("HKLM\\Software\\Origin"@, "InstallSuccessful"@, "true"@),
        entry32("HKLM\\Software\\Origin Games\\1035052"@, "locale"@, "en_US"@),
        entry32(
            "HKLM\\Software\\Origin Games\\1035052"@,
            "displayname"@,
            "STAR WARS Battlefront II"@,
        ),
        entry64("HKLM\\Software\\Origin Games\\1035052"@, "locale"@, "en_US"@),
        entry64(
            "HKLM\\Software\\Origin Games\\1035052"@,
            "displayname"@,
            "STAR WARS Battlefront II"@,
        ),
        entry64("HKCU\\Control Panel\\International"@, "Locale"@, "00000409"@),
        entry64("HKCU\\Control Panel\\International"@, "LocaleName"@, "en-US"@),
        entry64("HKCU\\Control Panel\\International"@, "sLanguage"@, "ENU"@),
        entry64("HKLM\\Software\\WoW6432Node\\Origin Games\\1035052"@, "locale"@, "en_US"@),
        entry64(
            "HKLM\\Software\\WoW6432Node\\Origin Games\\1035052"@,
            "displayname"@,
            "STAR WARS Battlefront II"@,
        ),
        entry64("HKCU\\Software\\Valve\\Steam"@, "language"@, "english"@),
        entry64("HKCU\\Environment"@, "LANG"@, "en_US.UTF-8"@),
        entry64("HKCU\\Environment"@, "LC_ALL"@, "en_US.UTF-8"@),
    ]
}

/// The names without which the game refuses to start.
pub open spec fn critical_names() -> Seq<Seq<char>> {
    seq!["locale"@, "displayname"@, "Locale"@, "LocaleName"@, "sLanguage"@, "language"@]
}

fn entry(key: &str, name: &str, data: &str, view: &str) -> (r: RegEntry)
    ensures
        r@ == (Entry { key: key@, name: name@, data: data@, view: view@ }),
{
    RegEntry {
        key: key.to_owned(),
        name: name.to_owned(),
        data: data.to_owned(),
        view: view.to_owned(),
    }
}

/// The four locale entries.
pub fn locale_entry_list() -> (r: Vec<RegEntry>)
    ensures
        entry_views(r@) == locale_entries(),
{
    let international = "HKCU\\Control Panel\\International";
    let r = vec![
        entry(international, "Locale", "00000409", "/reg:64"),
        entry(international, "LocaleName", "en-US", "/reg:64"),
        entry(international, "sLanguage", "ENU", "/reg:64"),
        entry("HKCU\\Software\\Valve\\Steam", "language", "english", "/reg:64"),
    ];
    assert(entry_views(r@) =~= locale_entries());
    r
}

/// All entries that the registry setup writes.
pub fn setup_entry_list() -> (r: Vec<RegEntry>)
    ensures
        entry_views(r@) == setup_entries(),
{
    let international = "HKCU\\Control Panel\\International";
    let games = "HKLM\\Software\\Origin Games\\1035052";
    let games32 = "HKLM\\Software\\WoW6432Node\\Origin Games\\1035052";
    let title = "STAR WARS Battlefront II";
    let conhost = "C:/Windows/System32/conhost.exe";
    let r = vec![
        entry(
            "HKLM\\Software\\Electronic Arts\\EA Desktop",
            "InstallSuccessful",
            "true",
            "/reg:64",
        ),
        entry("HKLM\\Software\\Origin", "ClientPath", conhost, "/reg:32"),
        entry("HKLM\\Software\\Origin", "InstallSuccessful", "true", "/reg:32"),
        entry(games, "locale", "en_US", "/reg:32"),
        entry(games, "displayname", title, "/reg:32"),
        entry(games, "locale", "en_US", "/reg:64"),
        entry(games, "displayname", title, "/reg:64"),
        entry(international, "Locale", "00000409", "/reg:64"),
        entry(international, "LocaleName", "en-US", "/reg:64"),
        entry(international, "sLanguage", "ENU", "/reg:64"),
        entry(games32, "locale", "en_US", "/reg:64"),
        entry(games32, "displayname", title, "/reg:64"),
        entry("HKCU\\Software\\Valve\\Steam", "language", "english", "/reg:64"),
        entry("HKCU\\Environment", "LANG", "en_US.UTF-8", "/reg:64"),
        entry("HKCU\\Environment", "LC_ALL", "en_US.UTF-8", "/reg:64"),
    ];
    assert(entry_views(r@) =~= setup_entries());
    r
}

/// Whether a name is one without which the game refuses to start.
pub fn is_critical_name(name: &str) -> (r: bool)
    ensures
        r == critical_names().contains(name@),
{
    let names = vec![
        "locale".to_owned(),
        "displayname".to_owned(),
        "Locale".to_owned(),
        "LocaleName".to_owned(),
        "sLanguage".to_owned(),
        "language".to_owned(),
    ];
    assert(text::views(names@) =~= critical_names());
    holds(&names, name)
}

/// The arguments of `reg.exe` that write an entry. The view stands before `/f`: some
/// versions of `reg.exe` ignore it after that.
pub open spec fn add_args(e: Entry) -> Seq<Seq<char>> {
    seq!["add"@, e.key, "/v"@, e.name, e.view, "/d"@, e.data, "/f"@]
}

/// The arguments of `reg.exe` that write an entry.
pub fn reg_add_args(e: &RegEntry) -> (r: Vec<String>)
    ensures
        text::views(r@) == add_args(e@),
{
    let r = vec![
        "add".to_owned(),
        e.key.clone(),
        "/v".to_owned(),
        e.name.clone(),
        e.view.clone(),
        "/d".to_owned(),
        e.data.clone(),
        "/f".to_owned(),
    ];
    assert(text::views(r@) =~= add_args(e@));
    r
}

/// The arguments of `reg.exe` that read the value of an entry.
pub fn reg_query_args(e: &RegEntry) -> (r: Vec<String>)
    ensures
        text::views(r@) == seq!["query"@, e.key@, "/v"@, e.name@],
{
    let r = vec!["query".to_owned(), e.key.clone(), "/v".to_owned(), e.name.clone()];
    assert(text::views(r@) =~= seq!["query"@, e.key@, "/v"@, e.name@]);
    r
}

/// The command that writes an entry.
pub fn reg_add_request(e: &RegEntry) -> (r: WineRequest)
    ensures
        r.arg@ == "reg"@,
        text::views(r.args@) == add_args(e@),
        r.cwd is None,
        !r.want_output,
        r.command_type == CommandType::Run,
{
    WineRequest {
        arg: "reg".to_owned(),
        args: reg_add_args(e),
        cwd: None,
        want_output: false,
        command_type: CommandType::Run,
    }
}

/// The command that reads the value of an entry.
pub fn reg_query_request(e: &RegEntry) -> (r: WineRequest)
    ensures
        r.arg@ == "reg"@,
        text::views(r.args@) == seq!["query"@, e.key@, "/v"@, e.name@],
        r.cwd is None,
        r.want_output,
        r.command_type == CommandType::Run,
{
    WineRequest {
        arg: "reg".to_owned(),
        args: reg_query_args(e),
        cwd: None,
        want_output: true,
        command_type: CommandType::Run,
    }
}

/// How far the registry setup has come.
pub enum SetupStage {
    /// The registry files have not been looked at.
    Preflight,
    /// Wine is being asked for the locale values.
    Probe,
    /// The entries are being written.
    Adding,
    Finished,
}

/// The registry setup: its stage and whether each entry so far could be written.
pub struct RegistrySetup {
    pub stage: SetupStage,
    pub written: Vec<bool>,
}

/// What has happened.
pub enum SetupEvent {
    /// Whether a wineserver runs, and whether the registry files hold all values.
    Looked { wineserver: bool, files_ok: bool },
    /// Whether Wine reports the locale values as they should be.
    Probed(bool),
    /// Whether the entry could be written.
    Written(bool),
}

/// What to do next.
pub enum SetupAction {
    /// Ask Wine for the locale values.
    Probe,
    /// Write this entry.
    Add(RegEntry),
    /// Go on with the launch.
    Finish,
    /// Give up the launch, for this reason.
    Abort(String),
}

/// Whether the event is one that the stage waits for.
pub open spec fn setup_expects(s: RegistrySetup, event: SetupEvent) -> bool {
    match s.stage {
        SetupStage::Preflight => event is Looked && s.written@.len() == 0,
        SetupStage::Probe => event is Probed && s.written@.len() == 0,
        SetupStage::Adding => event is Written && s.written@.len() < setup_entries().len(),
        SetupStage::Finished => false,
    }
}

/// The names of the first `n` entries that could not be written and that are critical.
pub open spec fn critical_failures(written: Seq<bool>, n: int) -> Seq<Seq<char>>
    decreases n,
{
    if n <= 0 {
        Seq::empty()
    } else {
        let before = critical_failures(written, n - 1);
        let name = setup_entries()[n - 1].name;
        if !written[n - 1] && critical_names().contains(name) {
            before.push(name)
        } else {
            before
        }
    }
}

/// A text in quotes.
pub open spec fn quoted(s: Seq<char>) -> Seq<char> {
    "\""@ + s + "\""@
}

/// The reason for giving up the launch.
pub open spec fn abort_reason(names: Seq<Seq<char>>) -> Seq<char> {
    "setup_wine_registry: "@ + number::decimal(names.len()) + " critical entries failed: "@ + (
    "["@ + text::join(names.map_values(|n: Seq<char>| quoted(n)), ", "@) + "]"@)
}

fn abort_text(names: &Vec<String>) -> (r: String)
    ensures
        r@ == abort_reason(text::views(names@)),
{
    let ghost all = text::views(names@).map_values(|n: Seq<char>| quoted(n));
    let mut marked: Vec<String> = Vec::new();
    let mut i: usize = 0;
    while i < names.len()
        invariant
            i <= names@.len(),
            all == text::views(names@).map_values(|n: Seq<char>| quoted(n)),
            text::views(marked@) == all.take(i as int),
        decreases names@.len() - i,
    {
        let ghost before = text::views(marked@);
        let q = cat3("\"", names[i].as_str(), "\"");
        assert(q@ == all[i as int]);
        marked.push(q);
        assert(text::views(marked@) =~= before.push(all[i as int]));
        assert(all.take(i + 1) =~= before.push(all[i as int]));
        i += 1;
    }
    assert(all.take(all.len() as int) =~= all);
    let count = decimal_text(names.len() as u64);
    let joined = join_texts(&marked, ", ");
    let list = cat3("[", joined.as_str(), "]");
    let head = cat3("setup_wine_registry: ", count.as_str(), " critical entries failed: ");
    cat(head.as_str(), list.as_str())
}

impl RegistrySetup {
    /// The setup before anything has happened.
    pub fn new() -> (r: Self)
        ensures
            r.stage is Preflight,
            r.written@ == Seq::<bool>::empty(),
    {
        RegistrySetup { stage: SetupStage::Preflight, written: Vec::new() }
    }
}

/// Takes the registry setup one step on. Nothing is written when the files already hold
/// all values and no wineserver could contradict them, or when Wine itself reports the
/// locale values as they should be. Otherwise all entries are written, one after the
/// other, and the launch goes on unless a critical one failed.
pub fn setup_wine_registry(setup: &mut RegistrySetup, event: SetupEvent) -> (action: SetupAction)
    requires
        setup_expects(*old(setup), event),
    ensures
        match event {
            SetupEvent::Looked { wineserver, files_ok } => {
                &&& final(setup).written@ == old(setup).written@
                &&& if !wineserver && files_ok {
                    final(setup).stage is Finished && action is Finish
                } else {
                    final(setup).stage is Probe && action is Probe
                }
            },
            SetupEvent::Probed(english) => {
                &&& final(setup).written@ == old(setup).written@
                &&& if english {
                    final(setup).stage is Finished && action is Finish
                } else {
                    &&& final(setup).stage is Adding
                    &&& action matches SetupAction::Add(e) && e@ == setup_entries()[0]
                }
            },
            SetupEvent::Written(ok) => {
                let n = setup_entries().len() as int;
                let done = old(setup).written@.push(ok);
                let failed = critical_failures(done, n);
                &&& final(setup).written@ == done
                &&& if done.len() < n {
                    &&& final(setup).stage is Adding
                    &&& action matches SetupAction::Add(e) && e@ == setup_entries()[done.len() as int]
                } else if failed.len() == 0 {
                    final(setup).stage is Finished && action is Finish
                } else {
                    &&& final(setup).stage is Finished
                    &&& action matches SetupAction::Abort(reason) && reason@ == abort_reason(failed)
                }
            },
        },
{
    match event {
        SetupEvent::Looked { wineserver, files_ok } => {
            if !wineserver && files_ok {
                setup.stage = SetupStage::Finished;
                SetupAction::Finish
            } else {
                setup.stage = SetupStage::Probe;
                SetupAction::Probe
            }
        },
        SetupEvent::Probed(english) => {
            if english {
                setup.stage = SetupStage::Finished;
                SetupAction::Finish
            } else {
                setup.stage = SetupStage::Adding;
                let mut list = setup_entry_list();
                assert(entry_views(list@).len() == list@.len());
                assert(entry_views(list@)[0] == list@[0]@);
                SetupAction::Add(list.remove(0))
            }
        },
        SetupEvent::Written(ok) => {
            setup.written.push(ok);
            let ghost done = setup.written@;
            let mut list = setup_entry_list();
            let ghost all = list@;
            assert(entry_views(all).len() == all.len());
            let at: usize = setup.written.len();
            if at < list.len() {
                setup.stage = SetupStage::Adding;
                assert(entry_views(all)[at as int] == all[at as int]@);
                return SetupAction::Add(list.remove(at));
            }
            setup.stage = SetupStage::Finished;
            let mut failed: Vec<String> = Vec::new();
            let mut i: usize = 0;
            while i < list.len()
                invariant
                    i <= list@.len(),
                    list@ == all,
                    entry_views(all) == setup_entries(),
                    all.len() == done.len(),
                    setup.written@ == done,
                    text::views(failed@) == critical_failures(done, i as int),
                decreases list@.len() - i,
            {
                let ghost before = text::views(failed@);
                assert(entry_views(all)[i as int] == all[i as int]@);
                if !setup.written[i] && is_critical_name(list[i].name.as_str()) {
                    failed.push(list[i].name.clone());
                    assert(text::views(failed@) =~= before.push(all[i as int].name@));
                }
                i += 1;
            }
            assert(text::views(failed@).len() == failed@.len());
            if failed.len() == 0 {
                SetupAction::Finish
            } else {
                SetupAction::Abort(abort_text(&failed))
            }
        },
    }
}

/// What the locale lock does next.
pub enum LockAction {
    /// Write this entry.
    Add(RegEntry),
    /// Go on with the launch, after this many of the entries failed.
    Finish(usize),
}

/// The number of entries that could not be written.
pub open spec fn failures(written: Seq<bool>) -> nat {
    written.filter(|ok: bool| !ok).len()
}

/// Takes the locale lock, which writes the four locale entries again right before the game
/// starts, one step on: `files_ok` says whether `user.reg` already holds them, `written`
/// whether each entry so far could be written. It never stops the launch.
pub fn lock_locale_just_in_time(files_ok: bool, written: &Vec<bool>) -> (action: LockAction)
    requires
        written@.len() <= locale_entries().len(),
    ensures
        if !files_ok && written@.len() < locale_entries().len() {
            action matches LockAction::Add(e) && e@ == locale_entries()[written@.len() as int]
        } else if files_ok {
            action == LockAction::Finish(0)
        } else {
            action matches LockAction::Finish(n) && n == failures(written@)
        },
{
    if files_ok {
        return LockAction::Finish(0);
    }
    let mut list = locale_entry_list();
    let ghost all = list@;
    assert(entry_views(all).len() == all.len());
    if written.len() < list.len() {
        assert(entry_views(all)[written@.len() as int] == all[written@.len() as int]@);
        return LockAction::Add(list.remove(written.len()));
    }
    let mut failed: usize = 0;
    let mut i: usize = 0;
    assert(written@.take(0) =~= Seq::empty());
    assert(failures(written@.take(0)) == 0) by {
        reveal(Seq::filter);
    }
    while i < written.len()
        invariant
            i <= written@.len(),
            failed <= i,
            failed == failures(written@.take(i as int)),
        decreases written@.len() - i,
    {
        assert(written@.take(i + 1).drop_last() =~= written@.take(i as int));
        reveal(Seq::filter);
        if !written[i] {
            failed += 1;
        }
        i += 1;
    }
    assert(written@.take(written@.len() as int) =~= written@);
    LockAction::Finish(failed)
}

/// Whether `i` is the first line that holds `name`.
pub open spec fn names_first(lines: Seq<Seq<char>>, name: Seq<char>, i: int) -> bool {
    &&& 0 <= i < lines.len()
    &&& text::occurs(lines[i], name)
    &&& forall|j: int| 0 <= j < i ==> !text::occurs(#[trigger] lines[j], name)
}

/// The first line of `reg.exe`'s output that holds `name`, or a note that there is none.
pub open spec fn reported_line(output: Seq<char>, name: Seq<char>) -> Seq<char> {
    let lines = text::lines(output);
    if exists|i: int| names_first(lines, name, i) {
        lines[choose|i: int| names_first(lines, name, i)]
    } else {
        "(not found)"@
    }
}

/// Whether `reg.exe`'s output reports the expected value: it is not blank, and the first
/// line with the name holds the value too.
pub open spec fn reports_value(output: Seq<char>, name: Seq<char>, expected: Seq<char>) -> bool {
    &&& text::trimmed(output).len() > 0
    &&& text::occurs(text::trimmed(reported_line(output, name)), expected)
}

/// Whether `reg.exe`'s output reports the expected value. Blank output means that the
/// command very likely never ran, and counts as a mismatch.
pub fn output_reports_value(output: &str, name: &str, expected: &str) -> (r: bool)
    ensures
        r == reports_value(output@, name@, expected@),
{
    let whole = trim(output);
    if whole.as_str().is_empty() {
        return false;
    }
    let lines = lines_of(output);
    let ghost all = text::lines(output@);
    let mut i: usize = 0;
    while i < lines.len()
        invariant
            i <= lines@.len(),
            all == text::views(lines@),
            all == text::lines(output@),
            text::trimmed(output@).len() > 0,
            forall|j: int| 0 <= j < i ==> !text::occurs(#[trigger] all[j], name@),
        decreases lines@.len() - i,
    {
        let line = lines[i].as_str();
        assert(line@ == all[i as int]);
        if contains(line, name) {
            let t = trim(line);
            proof {
                assert(names_first(all, name@, i as int));
                let k = choose|k: int| names_first(all, name@, k);
                assert(names_first(all, name@, k));
                assert(k == i) by {
                    if k < i {
                        assert(text::occurs(all[k], name@));
                    } else if i < k {
                        assert(text::occurs(all[i as int], name@));
                    }
                }
            }
            return contains(t.as_str(), expected);
        }
        i += 1;
    }
    assert(!exists|k: int| names_first(all, name@, k));
    let t = trim("(not found)");
    contains(t.as_str(), expected)
}

/// Whether Wine reports all four locale values as they should be, given the output of each
/// query in the order of the locale entries, with `None` for a query that failed.
pub fn verify_locale_is_english(outputs: &Vec<Option<String>>) -> (r: bool)
    requires
        outputs@.len() == locale_entries().len(),
    ensures
        r == forall|i: int|
            0 <= i < outputs@.len() ==> (#[trigger] outputs@[i] is Some && reports_value(
                outputs@[i]->0@,
                locale_entries()[i].name,
                locale_entries()[i].data,
            )),
{
    let probes = locale_entry_list();
    let ghost all = probes@;
    let mut i: usize = 0;
    while i < outputs.len()
        invariant
            i <= outputs@.len() == probes@.len(),
            all == probes@,
            entry_views(all) == locale_entries(),
            forall|j: int|
                0 <= j < i ==> (#[trigger] outputs@[j] is Some && reports_value(
                    outputs@[j]->0@,
                    locale_entries()[j].name,
                    locale_entries()[j].data,
                )),
        decreases outputs@.len() - i,
    {
        let probe = &probes[i];
        assert(entry_views(all)[i as int] == probe@);
        let ok = match &outputs[i] {
            Some(o) => output_reports_value(o.as_str(), probe.name.as_str(), probe.data.as_str()),
            None => false,
        };
        if !ok {
            assert(!(outputs@[i as int] is Some && reports_value(
                outputs@[i as int]->0@,
                locale_entries()[i as int].name,
                locale_entries()[i as int].data,
            )));
            return false;
        }
        i += 1;
    }
    true
}

/// The locale lock writes only what the registry setup writes too, and only critical values.
pub proof fn locale_lock_is_part_of_setup(i: int)
    requires
        0 <= i < locale_entries().len(),
    ensures
        setup_entries().contains(locale_entries()[i]),
        critical_names().contains(locale_entries()[i].name),
{
    let all = setup_entries();
    let names = critical_names();
    assert(all[7] == locale_entries()[0]);
    assert(all[8] == locale_entries()[1]);
    assert(all[9] == locale_entries()[2]);
    assert(all[12] == locale_entries()[3]);
    assert(names[2] == locale_entries()[0].name);
    assert(names[3] == locale_entries()[1].name);
    assert(names[4] == locale_entries()[2].name);
    assert(names[5] == locale_entries()[3].name);
}

/// Whether an entry belongs to the user, and not to the machine.
pub open spec fn is_user_entry(e: Entry) -> bool {
    "HKCU\\"@.is_prefix_of(e.key)
}

/// The check of the registry files looks for the value of every entry that the setup
/// writes, in the file of the user for the user's entries and of the machine for the others.
pub proof fn file_checks_cover_setup(i: int)
    requires
        0 <= i < setup_entries().len(),
    ensures
        exists|k: int|
            0 <= k < reg_files::registry_checks().len()
                && (#[trigger] reg_files::registry_checks()[k]).name == setup_entries()[i].name
                && reg_files::registry_checks()[k].value == setup_entries()[i].data
                && reg_files::registry_checks()[k].user == is_user_entry(setup_entries()[i]),
{
    let checks = reg_files::registry_checks();
    let all = setup_entries();
    let covers = |k: int, j: int|
        checks[k].name == all[j].name && checks[k].value == all[j].data && checks[k].user
            == is_user_entry(all[j]);
    lemma_roots();
    assert(covers(6, 0) && covers(7, 1) && covers(8, 2) && covers(9, 3) && covers(10, 4));
    assert(covers(9, 5) && covers(10, 6) && covers(0, 7) && covers(1, 8) && covers(2, 9));
    assert(covers(9, 10) && covers(10, 11) && covers(3, 12) && covers(4, 13) && covers(5, 14));
    let k = if i < 5 {
        i + 6
    } else if i < 7 {
        i + 4
    } else if i < 10 {
        i - 7
    } else if i < 12 {
        i - 1
    } else {
        i - 9
    };
    assert(covers(k, i));
    assert(checks[k].name == all[i].name);
}

proof fn lemma_roots()
    ensures
        forall|j: int|
            0 <= j < setup_entries().len() ==> is_user_entry(#[trigger] setup_entries()[j]) == (7
                <= j < 10 || 12 <= j),
{
    reveal_strlit("HKCU\\");
    reveal_strlit("HKLM\\Software\\Electronic Arts\\EA Desktop");
    reveal_strlit("HKLM\\Software\\Origin");
    reveal_strlit("HKLM\\Software\\Origin Games\\1035052");
    reveal_strlit("HKLM\\Software\\WoW6432Node\\Origin Games\\1035052");
    reveal_strlit("HKCU\\Control Panel\\International");
    reveal_strlit("HKCU\\Software\\Valve\\Steam");
    reveal_strlit("HKCU\\Environment");
    let root = "HKCU\\"@;
    assert forall|j: int| 0 <= j < setup_entries().len() implies is_user_entry(
        #[trigger] setup_entries()[j],
    ) == (7 <= j < 10 || 12 <= j) by {
        let key = setup_entries()[j].key;
        if 7 <= j < 10 || 12 <= j {
            assert(key.subrange(0, 5) =~= root);
        } else {
            assert(key[2] == 'L');
            if root.is_prefix_of(key) {
                assert(key.subrange(0, 5)[2] == 'C');
            }
        }
    }
}

/// What the setup writes of the game's catalog entry, it writes in the 32-bit and in the
/// 64-bit view.
pub proof fn catalog_is_in_both_views(i: int)
    requires
        0 <= i < setup_entries().len(),
        setup_entries()[i].key == "HKLM\\Software\\Origin Games\\1035052"@,
    ensures
        setup_entries().contains(
            entry32(setup_entries()[i].key, setup_entries()[i].name, setup_entries()[i].data),
        ),
        setup_entries().contains(
            entry64(setup_entries()[i].key, setup_entries()[i].name, setup_entries()[i].data),
        ),
{
    reveal_strlit("HKLM\\Software\\Electronic Arts\\EA Desktop");
    reveal_strlit("HKLM\\Software\\Origin");
    reveal_strlit("HKLM\\Software\\Origin Games\\1035052");
    reveal_strlit("HKLM\\Software\\WoW6432Node\\Origin Games\\1035052");
    reveal_strlit("HKCU\\Control Panel\\International");
    reveal_strlit("HKCU\\Software\\Valve\\Steam");
    reveal_strlit("HKCU\\Environment");
    let all = setup_entries();
    let key = "HKLM\\Software\\Origin Games\\1035052"@;
    assert(all[i].key.len() == key.len());
    assert(3 <= i < 7);
    assert(all[3] == entry32(key, all[3].name, all[3].data));
    assert(all[4] == entry32(key, all[4].name, all[4].data));
    assert(all[5] == entry64(key, all[3].name, all[3].data));
    assert(all[6] == entry64(key, all[4].name, all[4].data));
}

/// The launch is given up exactly where a value without which the game refuses to start
/// could not be written.
pub proof fn critical_failure_stops_the_launch(written: Seq<bool>, n: int)
    requires
        0 <= n <= setup_entries().len(),
        written.len() == setup_entries().len(),
    ensures
        critical_failures(written, n).len() == 0 <==> forall|i: int|
            0 <= i < n && critical_names().contains(#[trigger] setup_entries()[i].name)
                ==> written[i],
    decreases n,
{
    if n > 0 {
        critical_failure_stops_the_launch(written, n - 1);
        let name = setup_entries()[n - 1].name;
        if !written[n - 1] && critical_names().contains(name) {
            assert(critical_failures(written, n).len() > 0);
        } else {
            assert forall|i: int|
                0 <= i < n && critical_names().contains(#[trigger] setup_entries()[i].name)
                    && critical_failures(written, n - 1).len() == 0 implies written[i] by {}
        }
    }
}

/// What is reported as failed are the names of exactly the critical entries that could not be
/// written, in order.
pub proof fn failures_are_named_in_order(written: Seq<bool>, n: int)
    requires
        0 < n <= setup_entries().len(),
        written.len() == setup_entries().len(),
    ensures
        ({
            let name = setup_entries()[n - 1].name;
            let critical = name == "locale"@ || name == "displayname"@ || name == "Locale"@ || name
                == "LocaleName"@ || name == "sLanguage"@ || name == "language"@;
            &&& !written[n - 1] && critical ==> critical_failures(written, n) == critical_failures(
                written,
                n - 1,
            ).push(name)
            &&& written[n - 1] || !critical ==> critical_failures(written, n) == critical_failures(
                written,
                n - 1,
            )
            &&& critical_failures(written, 0) == Seq::<Seq<char>>::empty()
        }),
{
    let names = critical_names();
    let name = setup_entries()[n - 1].name;
    assert(names[0] == "locale"@ && names[1] == "displayname"@ && names[2] == "Locale"@ && names[3]
        == "LocaleName"@ && names[4] == "sLanguage"@ && names[5] == "language"@);
}

/// An entry is written under its key and its name, with its data and in its view, and replaces
/// what is there.
pub proof fn entry_is_written_as_it_is(e: Entry)
    ensures
        ({
            let args = add_args(e);
            &&& args.len() == 8
            &&& args[0] == "add"@ && args[1] == e.key
            &&& args[2] == "/v"@ && args[3] == e.name
            &&& args[5] == "/d"@ && args[6] == e.data
            &&& args[4] == e.view && args[7] == "/f"@
        }),
{
}

/// The first line that holds the name decides: the value is reported exactly where that line
/// holds it too. Lines before it, which do not hold the name, and lines after it do not matter.
pub proof fn first_line_with_the_name_decides(
    output: Seq<char>,
    name: Seq<char>,
    expected: Seq<char>,
    i: int,
)
    requires
        0 <= i < text::lines(output).len(),
        text::occurs(text::lines(output)[i], name),
        forall|j: int| 0 <= j < i ==> !text::occurs(#[trigger] text::lines(output)[j], name),
        text::trimmed(output).len() > 0,
    ensures
        reports_value(output, name, expected) <==> text::occurs(
            text::trimmed(text::lines(output)[i]),
            expected,
        ),
{
    let lines = text::lines(output);
    assert(names_first(lines, name, i));
    let k = choose|k: int| names_first(lines, name, k);
    assert(names_first(lines, name, k));
    if k < i {
        assert(text::occurs(lines[k], name));
    } else if i < k {
        assert(text::occurs(lines[i], name));
    }
}

/// Blank output reports nothing, and output without the name reports no value, unless the note
/// of that holds it.
pub proof fn nothing_is_reported_without_the_name(
    output: Seq<char>,
    name: Seq<char>,
    expected: Seq<char>,
)
    ensures
        text::trimmed(output).len() == 0 ==> !reports_value(output, name, expected),
        (forall|j: int|
            0 <= j < text::lines(output).len() ==> !text::occurs(
                #[trigger] text::lines(output)[j],
                name,
            )) && reports_value(output, name, expected) ==> text::occurs(
            text::trimmed("(not found)"@),
            expected,
        ),
{
    let lines = text::lines(output);
    if forall|j: int| 0 <= j < lines.len() ==> !text::occurs(#[trigger] lines[j], name) {
        assert(!exists|i: int| names_first(lines, name, i));
    }
}

/// The setup writes everything that the game and its client read: that the client is installed
/// and where, the catalog entry of the game in both views and in the 32-bit branch, the locale
/// of the user and of Steam, and the environment.
pub proof fn setup_writes_what_the_game_reads()
    ensures
        ({
            let all = setup_entries();
            let games = "HKLM\\Software\\Origin Games\\1035052"@;
            let branch = "HKLM\\Software\\WoW6432Node\\Origin Games\\1035052"@;
            let title = "STAR WARS Battlefront II"@;
            let international = "HKCU\\Control Panel\\International"@;
            &&& all.len() == 15
            &&& writes(
                all,
                "HKLM\\Software\\Electronic Arts\\EA Desktop"@,
                "InstallSuccessful"@,
                "true"@,
                "/reg:64"@,
            )
            &&& writes(
                all,
                "HKLM\\Software\\Origin"@,
                "ClientPath"@,
                "C:/Windows/System32/conhost.exe"@,
                "/reg:32"@,
            )
            &&& writes(all, "HKLM\\Software\\Origin"@, "InstallSuccessful"@, "true"@, "/reg:32"@)
            &&& writes(all, games, "locale"@, "en_US"@, "/reg:32"@)
            &&& writes(all, games, "locale"@, "en_US"@, "/reg:64"@)
            &&& writes(all, games, "displayname"@, title, "/reg:32"@)
            &&& writes(all, games, "displayname"@, title, "/reg:64"@)
            &&& writes(all, branch, "locale"@, "en_US"@, "/reg:64"@)
            &&& writes(all, branch, "displayname"@, title, "/reg:64"@)
            &&& writes(all, international, "Locale"@, "00000409"@, "/reg:64"@)
            &&& writes(all, international, "LocaleName"@, "en-US"@, "/reg:64"@)
            &&& writes(all, international, "sLanguage"@, "ENU"@, "/reg:64"@)
            &&& writes(
                all,
                "HKCU\\Software\\Valve\\Steam"@,
                "language"@,
                "english"@,
                "/reg:64"@,
            )
            &&& writes(all, "HKCU\\Environment"@, "LANG"@, "en_US.UTF-8"@, "/reg:64"@)
            &&& writes(all, "HKCU\\Environment"@, "LC_ALL"@, "en_US.UTF-8"@, "/reg:64"@)
        }),
{
    let all = setup_entries();
    assert forall|i: int| 0 <= i < all.len() implies writes(
        all,
        (#[trigger] all[i]).key,
        all[i].name,
        all[i].data,
        all[i].view,
    ) by {}
    assert(all[0].view == "/reg:64"@);
    assert(all[1].view == "/reg:32"@);
    assert(all[2].view == "/reg:32"@);
    assert(all[3].view == "/reg:32"@);
    assert(all[4].view == "/reg:32"@);
    assert(all[5].view == "/reg:64"@);
    assert(all[6].view == "/reg:64"@);
    assert(all[7].view == "/reg:64"@);
    assert(all[8].view == "/reg:64"@);
    assert(all[9].view == "/reg:64"@);
    assert(all[10].view == "/reg:64"@);
    assert(all[11].view == "/reg:64"@);
    assert(all[12].view == "/reg:64"@);
    assert(all[13].view == "/reg:64"@);
    assert(all[14].view == "/reg:64"@);
}

/// Whether one of the entries gives the name below the key this data in this view.
pub open spec fn writes(
    entries: Seq<Entry>,
    key: Seq<char>,
    name: Seq<char>,
    data: Seq<char>,
    view: Seq<char>,
) -> bool {
    exists|i: int|
        0 <= i < entries.len() && (#[trigger] entries[i]).key == key && entries[i].name == name
            && entries[i].data == data && entries[i].view == view
}

/// Wine is asked for the same values that are looked for in the files, in the same order, and
/// below the keys of the user.
pub proof fn locale_is_asked_for_as_in_the_files(i: int)
    requires
        0 <= i < locale_entries().len(),
    ensures
        locale_entries().len() == reg_files::locale_checks().len(),
        locale_entries()[i].name == reg_files::locale_checks()[i].name,
        locale_entries()[i].data == reg_files::locale_checks()[i].value,
        reg_files::locale_checks()[i].user,
{
}

/// The lock counts each entry that could not be written, once.
pub proof fn each_failure_counts_once(written: Seq<bool>, ok: bool)
    ensures
        failures(Seq::empty()) == 0,
        failures(written.push(ok)) == failures(written) + (if ok {
            0nat
        } else {
            1nat
        }),
{
    reveal(Seq::filter);
    assert(written.push(ok).drop_last() =~= written);
}

/// The reason for giving up counts the values that failed and names each of them in quotes.
pub proof fn reason_names_every_failure(names: Seq<Seq<char>>, i: int)
    requires
        0 <= i < names.len(),
    ensures
        text::occurs(abort_reason(names), seq!['"'] + names[i] + seq!['"']),
        ("setup_wine_registry: "@ + number::decimal(names.len())).is_prefix_of(abort_reason(names)),
{
    reveal_strlit("\"");
    assert("\""@ =~= seq!['"']);
    let marked = names.map_values(|n: Seq<char>| quoted(n));
    let name = seq!['"'] + names[i] + seq!['"'];
    assert(marked[i] == name);
    let (a, b) = lemma_joined_holds(marked, ", "@, i);
    let whole = abort_reason(names);
    let head = "setup_wine_registry: "@ + number::decimal(names.len());
    let before = head + " critical entries failed: "@ + "["@ + a;
    let after = b + "]"@;
    assert(whole =~= before + name + after);
    text::text_stands_where_it_was_put(before, name, after);
    assert(whole.subrange(0, head.len() as int) =~= head);
}

proof fn lemma_joined_holds(list: Seq<Seq<char>>, sep: Seq<char>, i: int) -> (r: (
    Seq<char>,
    Seq<char>,
))
    requires
        0 <= i < list.len(),
    ensures
        text::join(list, sep) == r.0 + list[i] + r.1,
    decreases list.len(),
{
    let rest = list.drop_last();
    let none = Seq::<char>::empty();
    if list.len() == 1 {
        assert(none + list[0] + none =~= list[0]);
        (none, none)
    } else if i < rest.len() {
        let (a, b) = lemma_joined_holds(rest, sep, i);
        let tail = b + sep + list.last();
        assert(a + list[i] + tail =~= a + rest[i] + b + sep + list.last());
        (a, tail)
    } else {
        let head = text::join(rest, sep) + sep;
        assert(head + list[i] + none =~= head + list.last());
        (head, none)
    }
}

} // verus!
