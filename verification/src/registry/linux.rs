//! The registration of the launcher on Linux, through a desktop file.

use vstd::prelude::*;
use crate::path;
use crate::path::{join_path, parent_of};
use crate::registry::error::RegistryError;
use crate::text;
use crate::text::{cat, cat3, same};
use crate::unicode;
use crate::unicode::text_of_utf8;

verus! {

/// Where the bootstrap program lies: beside the program, or in the directory `cli` there,
/// which comes first. A program without a parent gives nothing.
pub open spec fn bootstrap_at(program: Seq<char>, in_cli: bool) -> Option<Seq<char>> {
    match path::parent(program) {
        Some(dir) => Some(
            if in_cli {
                path::path_join(path::path_join(dir, "cli"@), "maxima-bootstrap"@)
            } else {
                path::path_join(dir, "maxima-bootstrap"@)
            },
        ),
        None => None,
    }
}

/// The path of the bootstrap program, in the directory `cli` or beside the program.
pub fn bootstrap_path(program: &str, in_cli: bool) -> (r: Option<String>)
    ensures
        text::opt_string(r) == bootstrap_at(program@, in_cli),
{
    match parent_of(program) {
        Some(dir) => if in_cli {
            let cli = join_path(dir.as_str(), "cli");
            Some(join_path(cli.as_str(), "maxima-bootstrap"))
        } else {
            Some(join_path(dir.as_str(), "maxima-bootstrap"))
        },
        None => None,
    }
}

/// A desktop file to write and to register.
pub struct DesktopEntry {
    pub path: String,
    pub contents: String,
    pub file_name: String,
    pub mime_type: String,
}

/// What has to be done to register a protocol.
pub enum Registration {
    /// Nothing: the installer has done it.
    Packaged,
    /// The launcher's directory has no parent to put the file in.
    NoParent,
    Write(DesktopEntry),
}

/// Whether the launcher was installed as a package.
pub open spec fn is_packaged(packaged: Option<Seq<char>>) -> bool {
    packaged == Some("1"@)
}

fn packaged_set(packaged: Option<&str>) -> (r: bool)
    ensures
        r == is_packaged(text::opt_str(packaged)),
{
    match packaged {
        Some(p) => same(p, "1"),
        None => false,
    }
}

/// The MIME type of a protocol.
pub open spec fn protocol_mime(protocol: Seq<char>) -> Seq<char> {
    "x-scheme-handler/"@ + protocol
}

/// The name of the desktop file of a protocol.
pub open spec fn desktop_name(protocol: Seq<char>) -> Seq<char> {
    "maxima-"@ + protocol + ".desktop"@
}

/// A line of a desktop file.
pub open spec fn desktop_line(key: Seq<char>, value: Seq<char>) -> Seq<char> {
    key + "="@ + value + "\n"@
}

/// The desktop file of a protocol.
pub open spec fn desktop_contents(
    protocol: Seq<char>,
    name: Seq<char>,
    executable: Seq<char>,
) -> Seq<char> {
    "[Desktop Entry]\n"@ + desktop_line("Type"@, "Application"@) + desktop_line("Name"@, name)
        + desktop_line("MimeType"@, protocol_mime(protocol)) + desktop_line(
        "Exec"@,
        executable + " %u"@,
    ) + desktop_line("NoDisplay"@, "true"@) + desktop_line("StartupNotify"@, "true"@)
}

fn add_line(file: &mut String, key: &str, value: &str)
    ensures
        final(file)@ == old(file)@ + desktop_line(key@, value@),
{
    let head = cat3(key, "=", value);
    let line = cat(head.as_str(), "\n");
    file.append(line.as_str());
}

/// What has to be done to register a program for a protocol, given the launcher's directory
/// and `MAXIMA_PACKAGED`.
pub fn register_custom_protocol(
    protocol: &str,
    name: &str,
    executable: &str,
    maxima_dir: &str,
    packaged: Option<&str>,
) -> (r: Registration)
    ensures
        match r {
            Registration::Packaged => is_packaged(text::opt_str(packaged)),
            Registration::NoParent => !is_packaged(text::opt_str(packaged)) && path::parent(
                maxima_dir@,
            ) is None,
            Registration::Write(entry) => {
                &&& !is_packaged(text::opt_str(packaged))
                &&& path::parent(maxima_dir@) is Some
                &&& entry.path@ == path::parent(maxima_dir@).unwrap() + "/applications/"@
                    + desktop_name(protocol@)
                &&& entry.contents@ == desktop_contents(protocol@, name@, executable@)
                &&& entry.file_name@ == desktop_name(protocol@)
                &&& entry.mime_type@ == protocol_mime(protocol@)
            },
        },
{
    if packaged_set(packaged) {
        return Registration::Packaged;
    }
    let mime_type = cat("x-scheme-handler/", protocol);
    let exec = cat(executable, " %u");
    let mut contents = "[Desktop Entry]\n".to_owned();
    add_line(&mut contents, "Type", "Application");
    add_line(&mut contents, "Name", name);
    add_line(&mut contents, "MimeType", mime_type.as_str());
    add_line(&mut contents, "Exec", exec.as_str());
    add_line(&mut contents, "NoDisplay", "true");
    add_line(&mut contents, "StartupNotify", "true");
    let home = match parent_of(maxima_dir) {
        Some(h) => h,
        None => return Registration::NoParent,
    };
    let file_name = cat3("maxima-", protocol, ".desktop");
    let path = cat3(home.as_str(), "/applications/", file_name.as_str());
    Registration::Write(DesktopEntry { path, contents, file_name, mime_type })
}

/// What has to be done to register the launcher: it takes over the protocol that the sign-in
/// comes back through.
pub fn set_up_registry(bootstrap: &str, maxima_dir: &str, packaged: Option<&str>) -> (r: Registration)
    ensures
        match r {
            Registration::Packaged => is_packaged(text::opt_str(packaged)),
            Registration::NoParent => !is_packaged(text::opt_str(packaged)) && path::parent(
                maxima_dir@,
            ) is None,
            Registration::Write(entry) => {
                &&& !is_packaged(text::opt_str(packaged))
                &&& path::parent(maxima_dir@) is Some
                &&& entry.path@ == path::parent(maxima_dir@).unwrap() + "/applications/"@
                    + desktop_name("qrc"@)
                &&& entry.contents@ == desktop_contents("qrc"@, "Maxima Launcher"@, bootstrap@)
                &&& entry.file_name@ == desktop_name("qrc"@)
                &&& entry.mime_type@ == protocol_mime("qrc"@)
            },
        },
{
    register_custom_protocol("qrc", "Maxima Launcher", bootstrap, maxima_dir, packaged)
}

/// The arguments of `xdg-mime` that associate a MIME type with a desktop file, where
/// `xdg-mime` is available.
pub fn set_mime_type(available: bool, mime_type: &str, desktop_file: &str) -> (r: Result<
    Vec<String>,
    RegistryError,
>)
    ensures
        match r {
            Ok(args) => available && text::views(args@) == seq![
                "default"@,
                desktop_file@,
                mime_type@,
            ],
            Err(RegistryError::XdgMime) => !available,
            Err(_) => false,
        },
{
    if !available {
        return Err(RegistryError::XdgMime);
    }
    let args = vec!["default".to_owned(), desktop_file.to_owned(), mime_type.to_owned()];
    assert(text::views(args@) =~= seq!["default"@, desktop_file@, mime_type@]);
    Ok(args)
}

/// Whether the association was made, from the exit of `xdg-mime` and what it wrote to
/// standard error.
pub fn mime_type_set(mime_type: &str, success: bool, stderr: &[u8]) -> (r: Result<(), RegistryError>)
    ensures
        match r {
            Ok(_) => success,
            Err(RegistryError::MimeSet { mime_type: t, error }) => !success && t@ == mime_type@
                && error@ == unicode::byte_text(stderr@),
            Err(_) => false,
        },
{
    if !success {
        Err(
            RegistryError::MimeSet { mime_type: mime_type.to_owned(), error: text_of_utf8(stderr) },
        )
    } else {
        Ok(())
    }
}

/// How far the check of the registration is.
#[derive(Clone, Copy, PartialEq, Eq, Structural, Debug)]
pub enum ValidityStep {
    Valid,
    /// The handler of the protocol has to be looked up.
    AskHandler,
}

/// Whether the launcher is registered, given whether `MAXIMA_DISABLE_QRC` is set,
/// `MAXIMA_PACKAGED`, and whether the launcher handles the protocol, where that was looked
/// up. It need not be for a package, whose installer uses another name.
pub fn check_registry_validity(disable_qrc: bool, packaged: Option<&str>, handled: Option<bool>) -> (r:
    Result<ValidityStep, RegistryError>)
    ensures
        match r {
            Ok(ValidityStep::Valid) => disable_qrc || is_packaged(text::opt_str(packaged)) || handled
                == Some(true),
            Ok(ValidityStep::AskHandler) => !disable_qrc && !is_packaged(text::opt_str(packaged))
                && handled is None,
            Err(RegistryError::QrcUnregistered) => !disable_qrc && !is_packaged(
                text::opt_str(packaged),
            ) && handled == Some(false),
            Err(_) => false,
        },
{
    if disable_qrc || packaged_set(packaged) {
        return Ok(ValidityStep::Valid);
    }
    match handled {
        None => Ok(ValidityStep::AskHandler),
        Some(true) => Ok(ValidityStep::Valid),
        Some(false) => Err(RegistryError::QrcUnregistered),
    }
}

/// The arguments of `xdg-mime` that ask for the handler of a protocol.
pub fn handler_query(protocol: &str) -> (r: Vec<String>)
    ensures
        text::views(r@) == seq!["query"@, "default"@, protocol_mime(protocol@)],
{
    let args = vec!["query".to_owned(), "default".to_owned(), cat("x-scheme-handler/", protocol)];
    assert(text::views(args@) =~= seq!["query"@, "default"@, protocol_mime(protocol@)]);
    args
}

/// Whether the answer of `xdg-mime` names the launcher.
pub open spec fn names_launcher(answer: Seq<char>, protocol: Seq<char>) -> bool {
    answer == desktop_name(protocol) + "\n"@
}

/// Whether the answer of `xdg-mime` names the launcher.
pub fn is_launcher_answer(answer: &str, protocol: &str) -> (r: bool)
    ensures
        r == names_launcher(answer@, protocol@),
{
    let name = cat3("maxima-", protocol, ".desktop");
    let expected = cat(name.as_str(), "\n");
    same(answer, expected.as_str())
}

/// Whether the launcher handles a protocol, from the exit and the output of `xdg-mime`.
pub fn verify_protocol_handler(protocol: &str, success: bool, stdout: &[u8]) -> (r: Result<
    bool,
    RegistryError,
>)
    ensures
        match r {
            Ok(handled) => success && handled == names_launcher(
                unicode::byte_text(stdout@),
                protocol@,
            ),
            Err(RegistryError::XdgQueryFailed) => !success,
            Err(_) => false,
        },
{
    if !success {
        return Err(RegistryError::XdgQueryFailed);
    }
    let answer = text_of_utf8(stdout);
    Ok(is_launcher_answer(answer.as_str(), protocol))
}

/// The desktop file that the launcher registers for a protocol is the one that it recognises
/// when the system names it on a line, and that of no other protocol is.
pub proof fn registered_file_is_recognised(protocol: Seq<char>, other: Seq<char>)
    ensures
        names_launcher(desktop_name(protocol) + "\n"@, protocol),
        names_launcher(desktop_name(other) + "\n"@, protocol) ==> other == protocol,
{
    if names_launcher(desktop_name(other) + "\n"@, protocol) {
        let a = desktop_name(other) + "\n"@;
        let b = desktop_name(protocol) + "\n"@;
        let n = "maxima-"@.len() as int;
        assert(a.len() == b.len());
        assert(a.subrange(n, n + other.len()) =~= other);
        assert(b.subrange(n, n + other.len()) =~= protocol);
    }
}

/// The bootstrap program lies in the directory of the program, or in the directory `cli` there.
pub proof fn bootstrap_lies_beside_the_program(dir: Seq<char>, name: Seq<char>)
    requires
        path::is_plain_name(path::PathStyle::Unix, name),
        !path::ends_loosely(path::PathStyle::Unix, dir),
    ensures
        bootstrap_at(dir + seq!['/'] + name, false) == Some(dir + seq!['/'] + "maxima-bootstrap"@),
        bootstrap_at(dir + seq!['/'] + name, true) == Some(
            dir + seq!['/'] + "cli"@ + seq!['/'] + "maxima-bootstrap"@,
        ),
{
    reveal_strlit("maxima-bootstrap");
    reveal_strlit("cli");
    path::parent_of_a_child_is_the_directory(dir, name);
    let cli = dir + seq!['/'] + "cli"@;
    assert(dir.push('/') + "cli"@ =~= cli);
    assert(cli.last() == 'i');
    assert(cli.push('/') + "maxima-bootstrap"@ =~= cli + seq!['/'] + "maxima-bootstrap"@);
    assert(dir.push('/') + "maxima-bootstrap"@ =~= dir + seq!['/'] + "maxima-bootstrap"@);
}

/// Whether a text fits into one line.
pub open spec fn fits_a_line(s: Seq<char>) -> bool {
    !s.contains('\n') && !(s.len() > 0 && s.last() == '\r')
}

proof fn lemma_desktop_line(key: Seq<char>, value: Seq<char>, rest: Seq<char>)
    requires
        key.len() > 0,
        fits_a_line(key),
        fits_a_line(value),
    ensures
        text::lines(desktop_line(key, value) + rest) == seq![key + "="@ + value] + text::lines(rest),
{
    reveal_strlit("=");
    reveal_strlit("\n");
    let line = key + "="@ + value;
    assert(!line.contains('\n')) by {
        if line.contains('\n') {
            let k = choose|k: int| 0 <= k < line.len() && line[k] == '\n';
            if k < key.len() {
                assert(key[k] == '\n');
            } else if k > key.len() {
                assert(value[k - key.len() - 1] == '\n');
            }
        }
    }
    assert(line.last() != '\r') by {
        if value.len() == 0 {
            assert(line.last() == '=');
        } else {
            assert(line.last() == value.last());
        }
    }
    text::text_is_read_line_by_line(line, rest);
    assert("\n"@ =~= seq!['\n']);
    assert(desktop_line(key, value) + rest =~= line + seq!['\n'] + rest);
}

proof fn lemma_values_fit(protocol: Seq<char>, executable: Seq<char>)
    requires
        fits_a_line(protocol),
        fits_a_line(executable),
    ensures
        fits_a_line(protocol_mime(protocol)),
        fits_a_line(executable + " %u"@),
{
    reveal_strlit("x-scheme-handler/");
    reveal_strlit(" %u");
    let mime = protocol_mime(protocol);
    let exec = executable + " %u"@;
    if mime.contains('\n') {
        let k = choose|k: int| 0 <= k < mime.len() && mime[k] == '\n';
        if k >= 17 {
            assert(protocol[k - 17] == '\n');
        }
    }
    if protocol.len() == 0 {
        assert(mime.last() == '/');
    } else {
        assert(mime.last() == protocol.last());
    }
    if exec.contains('\n') {
        let k = choose|k: int| 0 <= k < exec.len() && exec[k] == '\n';
        if k < executable.len() {
            assert(executable[k] == '\n');
        }
    }
    assert(exec.last() == 'u');
}

proof fn lemma_desktop_texts(protocol: Seq<char>, name: Seq<char>, executable: Seq<char>)
    ensures
        "[Desktop Entry]\n"@ == "[Desktop Entry]"@ + seq!['\n'],
        "Type"@ + "="@ + "Application"@ == "Type=Application"@,
        "Name"@ + "="@ + name == "Name="@ + name,
        "MimeType"@ + "="@ + protocol_mime(protocol) == "MimeType=x-scheme-handler/"@ + protocol,
        "Exec"@ + "="@ + (executable + " %u"@) == "Exec="@ + executable + " %u"@,
        "NoDisplay"@ + "="@ + "true"@ == "NoDisplay=true"@,
        "StartupNotify"@ + "="@ + "true"@ == "StartupNotify=true"@,
{
    reveal_strlit("=");
    assert("[Desktop Entry]\n"@ =~= "[Desktop Entry]"@ + seq!['\n']) by {
        reveal_strlit("[Desktop Entry]\n");
        reveal_strlit("[Desktop Entry]");
    }
    assert("Type"@ + "="@ + "Application"@ =~= "Type=Application"@) by {
        reveal_strlit("Type");
        reveal_strlit("Application");
        reveal_strlit("Type=Application");
    }
    assert("Name"@ + "="@ + name =~= "Name="@ + name) by {
        reveal_strlit("Name");
        reveal_strlit("Name=");
    }
    assert("MimeType"@ + "="@ + protocol_mime(protocol) =~= "MimeType=x-scheme-handler/"@ + protocol) by {
        reveal_strlit("MimeType");
        reveal_strlit("x-scheme-handler/");
        reveal_strlit("MimeType=x-scheme-handler/");
    }
    assert("Exec"@ + "="@ + (executable + " %u"@) =~= "Exec="@ + executable + " %u"@) by {
        reveal_strlit("Exec");
        reveal_strlit("Exec=");
    }
    assert("NoDisplay"@ + "="@ + "true"@ =~= "NoDisplay=true"@) by {
        reveal_strlit("NoDisplay");
        reveal_strlit("true");
        reveal_strlit("NoDisplay=true");
    }
    assert("StartupNotify"@ + "="@ + "true"@ =~= "StartupNotify=true"@) by {
        reveal_strlit("StartupNotify");
        reveal_strlit("true");
        reveal_strlit("StartupNotify=true");
    }
}

proof fn lemma_plain_texts_fit()
    ensures
        "Type"@.len() > 0 && fits_a_line("Type"@),
        fits_a_line("Application"@),
        "Name"@.len() > 0 && fits_a_line("Name"@),
        "MimeType"@.len() > 0 && fits_a_line("MimeType"@),
        "Exec"@.len() > 0 && fits_a_line("Exec"@),
        "NoDisplay"@.len() > 0 && fits_a_line("NoDisplay"@),
        "StartupNotify"@.len() > 0 && fits_a_line("StartupNotify"@),
        fits_a_line("true"@),
        "[Desktop Entry]"@.len() > 0 && fits_a_line("[Desktop Entry]"@),
{
    reveal_strlit("Type");
    reveal_strlit("Application");
    reveal_strlit("Name");
    reveal_strlit("MimeType");
    reveal_strlit("Exec");
    reveal_strlit("NoDisplay");
    reveal_strlit("StartupNotify");
    reveal_strlit("true");
    reveal_strlit("[Desktop Entry]");
}

proof fn lemma_grouped(
    h: Seq<char>,
    a: Seq<char>,
    b: Seq<char>,
    c: Seq<char>,
    d: Seq<char>,
    e: Seq<char>,
    f: Seq<char>,
)
    ensures
        h + a + b + c + d + e + f == h + (a + (b + (c + (d + (e + (f + Seq::empty())))))),
{
    let ef = e + (f + Seq::<char>::empty());
    assert(ef =~= e + f);
    let tail = d + ef;
    assert(h + a + b + c + d + e + f =~= h + a + b + c + tail);
    assert(h + a + b + c + tail =~= h + (a + (b + (c + tail))));
}

proof fn lemma_listed(
    a: Seq<char>,
    b: Seq<char>,
    c: Seq<char>,
    d: Seq<char>,
    e: Seq<char>,
    f: Seq<char>,
    g: Seq<char>,
)
    ensures
        seq![a] + (seq![b] + (seq![c] + (seq![d] + (seq![e] + (seq![f] + (seq![g]
            + Seq::<Seq<char>>::empty())))))) == seq![a, b, c, d, e, f, g],
{
    let last = seq![g] + Seq::<Seq<char>>::empty();
    assert(last =~= seq![g]);
    assert(seq![f] + last =~= seq![f, g]);
    assert(seq![e] + seq![f, g] =~= seq![e, f, g]);
    assert(seq![d] + seq![e, f, g] =~= seq![d, e, f, g]);
    assert(seq![c] + seq![d, e, f, g] =~= seq![c, d, e, f, g]);
    assert(seq![b] + seq![c, d, e, f, g] =~= seq![b, c, d, e, f, g]);
    assert(seq![a] + seq![b, c, d, e, f, g] =~= seq![a, b, c, d, e, f, g]);
}

/// The desktop file, read line by line, names the program with a place for the address, the
/// name and the MIME type of the protocol, and is hidden from menus.
pub proof fn desktop_file_says_what_is_registered(
    protocol: Seq<char>,
    name: Seq<char>,
    executable: Seq<char>,
)
    requires
        fits_a_line(protocol),
        fits_a_line(name),
        fits_a_line(executable),
    ensures
        text::lines(desktop_contents(protocol, name, executable)) == seq![
            "[Desktop Entry]"@,
            "Type=Application"@,
            "Name="@ + name,
            "MimeType=x-scheme-handler/"@ + protocol,
            "Exec="@ + executable + " %u"@,
            "NoDisplay=true"@,
            "StartupNotify=true"@,
        ],
{
    let none = Seq::<char>::empty();
    let mime = protocol_mime(protocol);
    let exec = executable + " %u"@;
    lemma_values_fit(protocol, executable);
    lemma_plain_texts_fit();
    lemma_desktop_texts(protocol, name, executable);
    let r6 = desktop_line("StartupNotify"@, "true"@) + none;
    let r5 = desktop_line("NoDisplay"@, "true"@) + r6;
    let r4 = desktop_line("Exec"@, exec) + r5;
    let r3 = desktop_line("MimeType"@, mime) + r4;
    let r2 = desktop_line("Name"@, name) + r3;
    let r1 = desktop_line("Type"@, "Application"@) + r2;
    lemma_grouped(
        "[Desktop Entry]"@ + seq!['\n'],
        desktop_line("Type"@, "Application"@),
        desktop_line("Name"@, name),
        desktop_line("MimeType"@, mime),
        desktop_line("Exec"@, exec),
        desktop_line("NoDisplay"@, "true"@),
        desktop_line("StartupNotify"@, "true"@),
    );
    assert(desktop_contents(protocol, name, executable) == "[Desktop Entry]"@ + seq!['\n'] + r1);
    text::text_is_read_line_by_line("[Desktop Entry]"@, r1);
    lemma_desktop_line("Type"@, "Application"@, r2);
    lemma_desktop_line("Name"@, name, r3);
    lemma_desktop_line("MimeType"@, mime, r4);
    lemma_desktop_line("Exec"@, exec, r5);
    lemma_desktop_line("NoDisplay"@, "true"@, r6);
    lemma_desktop_line("StartupNotify"@, "true"@, none);
    text::text_is_read_line_by_line(none, none);
    lemma_listed(
        "[Desktop Entry]"@,
        "Type=Application"@,
        "Name="@ + name,
        "MimeType=x-scheme-handler/"@ + protocol,
        "Exec="@ + executable + " %u"@,
        "NoDisplay=true"@,
        "StartupNotify=true"@,
    );
}

/// A protocol has its MIME type, its desktop file and the answer that names it, all by its own
/// name; no other answer names the launcher.
pub proof fn protocol_has_its_names(protocol: Seq<char>, answer: Seq<char>)
    ensures
        protocol_mime(protocol) == "x-scheme-handler/"@ + protocol,
        desktop_name(protocol) == "maxima-"@ + protocol + ".desktop"@,
        names_launcher(answer, protocol) <==> answer == "maxima-"@ + protocol + ".desktop"@ + "\n"@,
{
}

/// Only the value `1` says that the launcher was installed as a package.
pub proof fn only_one_says_packaged(value: Seq<char>)
    ensures
        is_packaged(Some(value)) <==> value.len() == 1 && value[0] == '1',
        !is_packaged(None),
{
    reveal_strlit("1");
    if value.len() == 1 && value[0] == '1' {
        assert(value =~= "1"@);
    }
}

} // verus!
