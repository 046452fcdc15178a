//! The registration of the launcher on macOS, which the bundle of the bootstrap program
//! does when it runs.

use vstd::prelude::*;
use crate::path;
use crate::path::{join_path, parent_of};
use crate::text;
use crate::text::cat;

verus! {

/// The bootstrap program within the bundle beside a directory.
pub open spec fn bundled(dir: Seq<char>) -> Seq<char> {
    path::path_join(
        path::path_join(
            path::path_join(
                path::path_join(
                    path::path_join(path::path_join(dir, "bundle"@), "osx"@),
                    "MaximaBootstrap.app"@,
                ),
                "Contents"@,
            ),
            "MacOS"@,
        ),
        "maxima-bootstrap"@,
    )
}

/// The path of the bootstrap program; a program without a parent gives nothing.
pub fn bootstrap_path(program: &str) -> (r: Option<String>)
    ensures
        text::opt_string(r) == (match path::parent(program@) {
            Some(dir) => Some(bundled(dir)),
            None => None,
        }),
{
    match parent_of(program) {
        Some(dir) => {
            let p = join_path(dir.as_str(), "bundle");
            let p = join_path(p.as_str(), "osx");
            let p = join_path(p.as_str(), "MaximaBootstrap.app");
            let p = join_path(p.as_str(), "Contents");
            let p = join_path(p.as_str(), "MacOS");
            Some(join_path(p.as_str(), "maxima-bootstrap"))
        },
        None => None,
    }
}

/// The arguments that the bootstrap program is run with to be registered.
pub fn set_up_registry() -> (r: Vec<String>)
    ensures
        text::views(r@) == seq!["--noop"@],
{
    let args = vec!["--noop".to_owned()];
    assert(text::views(args@) =~= seq!["--noop"@]);
    args
}

/// The arguments of `open` that tell whether a protocol is handled: it succeeds if so.
pub fn verify_protocol_handler(protocol: &str) -> (r: Vec<String>)
    ensures
        text::views(r@) == seq![protocol@ + "://"@, "--args"@, "--noop"@],
{
    let args = vec![cat(protocol, "://"), "--args".to_owned(), "--noop".to_owned()];
    assert(text::views(args@) =~= seq![protocol@ + "://"@, "--args"@, "--noop"@]);
    args
}

/// The bootstrap program lies deep in the bundle beside the program.
pub proof fn bootstrap_lies_in_the_bundle(dir: Seq<char>)
    requires
        dir.len() > 0,
        dir.last() != '/',
    ensures
        bundled(dir) == dir
            + "/bundle/osx/MaximaBootstrap.app/Contents/MacOS/maxima-bootstrap"@,
{
    reveal_strlit("bundle");
    reveal_strlit("osx");
    reveal_strlit("MaximaBootstrap.app");
    reveal_strlit("Contents");
    reveal_strlit("MacOS");
    reveal_strlit("maxima-bootstrap");
    reveal_strlit("/bundle/osx/MaximaBootstrap.app/Contents/MacOS/maxima-bootstrap");
    let a = path::path_join(dir, "bundle"@);
    let b = path::path_join(a, "osx"@);
    let c = path::path_join(b, "MaximaBootstrap.app"@);
    let d = path::path_join(c, "Contents"@);
    let e = path::path_join(d, "MacOS"@);
    assert(a.last() == 'e');
    assert(b.last() == 'x');
    assert(c.last() == 'p');
    assert(d.last() == 's');
    assert(e.last() == 'S');
    assert(bundled(dir) =~= dir
        + "/bundle/osx/MaximaBootstrap.app/Contents/MacOS/maxima-bootstrap"@);
}

} // verus!
