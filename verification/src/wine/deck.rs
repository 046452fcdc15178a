//! The Steam Deck, where the runtime that Steam already has is put in place of a download.

use vstd::prelude::*;
use crate::path;
use crate::path::{join_path, parent_of, paths_equal};
use crate::registry::steam;
use crate::registry::steam::parse_libraryfolders_vdf;
use crate::text;
use crate::text::{holds, lines_of, same, starts_with};

verus! {

/// Whether `/etc/os-release` names SteamOS.
pub open spec fn names_steamos(os_release: Seq<char>) -> bool {
    text::lines(os_release).contains("ID=steamos"@) || text::lines(os_release).contains(
        "ID=\"steamos\""@,
    )
}

/// Whether this is a Steam Deck, from the variable `SteamDeck`, whether `SteamOS` is set, and
/// the text of `/etc/os-release`. SteamOS is derived from another distribution, which must
/// not be taken for it: one of the three has to say so.
pub fn is_steam_deck(steam_deck: Option<&str>, steam_os_set: bool, os_release: Option<&str>) -> (r:
    bool)
    ensures
        r == ((steam_deck is Some && steam_deck->0@ == "1"@) || steam_os_set || (os_release is Some
            && names_steamos(os_release->0@))),
{
    let by_variable = match steam_deck {
        Some(v) => same(v, "1"),
        None => false,
    };
    if by_variable || steam_os_set {
        return true;
    }
    match os_release {
        Some(content) => {
            let lines = lines_of(content);
            holds(&lines, "ID=steamos") || holds(&lines, "ID=\"steamos\"")
        },
        None => false,
    }
}

/// An entry of a directory.
pub struct DirEntry {
    pub name: String,
    pub is_dir: bool,
}

/// Whether an entry is a platform directory of the sniper runtime.
pub open spec fn is_platform(e: DirEntry) -> bool {
    e.is_dir && "sniper_platform_"@.is_prefix_of(e.name@)
}

/// Whether one of the entries is a platform directory.
pub open spec fn has_platform(entries: Seq<DirEntry>) -> bool {
    exists|i: int| 0 <= i < entries.len() && is_platform(#[trigger] entries[i])
}

/// Whether a directory is a usable sniper runtime, from whether its entry point and its
/// verifier are files, and its entries (`None` where they cannot be listed).
pub fn is_valid_sniper_runtime(
    entry_point_is_file: bool,
    pv_verify_is_file: bool,
    entries: Option<&Vec<DirEntry>>,
) -> (r: bool)
    ensures
        r == (entry_point_is_file && pv_verify_is_file && match entries {
            Some(list) => has_platform(list@),
            None => false,
        }),
{
    if !entry_point_is_file || !pv_verify_is_file {
        return false;
    }
    match entries {
        Some(list) => {
            let mut i: usize = 0;
            while i < list.len()
                invariant
                    i <= list@.len(),
                    entries == Some(list),
                    entry_point_is_file && pv_verify_is_file,
                    forall|j: int| 0 <= j < i ==> !is_platform(#[trigger] list@[j]),
                decreases list@.len() - i,
            {
                if list[i].is_dir && starts_with(list[i].name.as_str(), "sniper_platform_") {
                    assert(is_platform(list@[i as int]));
                    return true;
                }
                i += 1;
            }
            false
        },
        None => false,
    }
}

/// The libraries of a Steam installation: those that its list names, from the text of that
/// list (`None` where it cannot be read), and the installation itself.
pub open spec fn libraries_of(root: Seq<char>, vdf: Option<Seq<char>>) -> Seq<Seq<char>> {
    (match vdf {
        Some(t) => steam::library_paths(t),
        None => Seq::empty(),
    }).push(root)
}

/// The libraries of several Steam installations, in order.
pub open spec fn all_libraries(roots: Seq<(Seq<char>, Option<Seq<char>>)>) -> Seq<Seq<char>>
    decreases roots.len(),
{
    if roots.len() == 0 {
        Seq::empty()
    } else {
        all_libraries(roots.drop_last()) + libraries_of(roots.last().0, roots.last().1)
    }
}

/// Where a library has the sniper runtime.
pub open spec fn sniper_dir(library: Seq<char>) -> Seq<char> {
    path::path_join(library, "steamapps/common/SteamLinuxRuntime_sniper"@)
}

/// Whether one of the paths of a list is the same path.
pub open spec fn has_path(list: Seq<Seq<char>>, p: Seq<char>) -> bool {
    exists|i: int| 0 <= i < list.len() && path::same_path(#[trigger] list[i], p)
}

/// The paths of a list without repetitions: each stands where it first stood.
pub open spec fn distinct(list: Seq<Seq<char>>) -> Seq<Seq<char>>
    decreases list.len(),
{
    if list.len() == 0 {
        Seq::empty()
    } else {
        let before = distinct(list.drop_last());
        if has_path(before, list.last()) {
            before
        } else {
            before.push(list.last())
        }
    }
}

fn lists_path(list: &Vec<String>, p: &str) -> (r: bool)
    ensures
        r == has_path(text::views(list@), p@),
{
    let ghost all = text::views(list@);
    let mut i: usize = 0;
    while i < list.len()
        invariant
            i <= list@.len(),
            all == text::views(list@),
            forall|j: int| 0 <= j < i ==> !path::same_path(#[trigger] all[j], p@),
        decreases list@.len() - i,
    {
        assert(all[i as int] == list@[i as int]@);
        if paths_equal(list[i].as_str(), p) {
            assert(path::same_path(all[i as int], p@));
            return true;
        }
        i += 1;
    }
    false
}

/// Where the sniper runtime could lie, in order and without repetitions, from the Steam
/// installations and the text of each one's list of libraries (`None` where it cannot be
/// read).
pub fn sniper_candidates(roots: &Vec<(String, Option<String>)>) -> (r: Vec<String>)
    ensures
        text::views(r@) == distinct(all_libraries(steam::search_views(roots@))).map_values(
            |l: Seq<char>| sniper_dir(l),
        ),
{
    let ghost all = steam::search_views(roots@);
    let mut seen: Vec<String> = Vec::new();
    let mut i: usize = 0;
    assert(text::views(seen@) =~= distinct(all_libraries(all.take(0))));
    while i < roots.len()
        invariant
            i <= roots@.len(),
            all == steam::search_views(roots@),
            text::views(seen@) == distinct(all_libraries(all.take(i as int))),
        decreases roots@.len() - i,
    {
        let mut libraries = match &roots[i].1 {
            Some(vdf) => parse_libraryfolders_vdf(vdf.as_str()),
            None => Vec::new(),
        };
        let ghost listed = text::views(libraries@);
        assert(all[i as int] == (roots@[i as int].0@, text::opt_string(roots@[i as int].1)));
        libraries.push(roots[i].0.clone());
        assert(text::views(libraries@) =~= listed.push(roots@[i as int].0@));
        assert(text::views(libraries@) =~= libraries_of(all[i as int].0, all[i as int].1));
        assert(all.take(i + 1).drop_last() =~= all.take(i as int));
        let ghost before = all_libraries(all.take(i as int));
        let ghost here = text::views(libraries@);
        let mut k: usize = 0;
        assert(before + here.take(0) =~= before);
        while k < libraries.len()
            invariant
                k <= libraries@.len(),
                here == text::views(libraries@),
                text::views(seen@) == distinct(before + here.take(k as int)),
            decreases libraries@.len() - k,
        {
            let ghost so_far = text::views(seen@);
            assert((before + here.take(k + 1)).drop_last() =~= before + here.take(k as int));
            assert((before + here.take(k + 1)).last() == libraries@[k as int]@);
            if !lists_path(&seen, libraries[k].as_str()) {
                seen.push(libraries[k].clone());
                assert(text::views(seen@) =~= so_far.push(libraries@[k as int]@));
            }
            k += 1;
        }
        assert(here.take(here.len() as int) =~= here);
        i += 1;
    }
    assert(all.take(all.len() as int) =~= all);

    let ghost libs = text::views(seen@);
    let ghost dirs = libs.map_values(|l: Seq<char>| sniper_dir(l));
    let mut out: Vec<String> = Vec::new();
    let mut k: usize = 0;
    while k < seen.len()
        invariant
            k <= seen@.len(),
            libs == text::views(seen@),
            dirs == libs.map_values(|l: Seq<char>| sniper_dir(l)),
            text::views(out@) == dirs.take(k as int),
        decreases seen@.len() - k,
    {
        let ghost before = text::views(out@);
        let dir = join_path(seen[k].as_str(), "steamapps/common/SteamLinuxRuntime_sniper");
        assert(dir@ == dirs[k as int]);
        out.push(dir);
        assert(text::views(out@) =~= before.push(dirs[k as int]));
        assert(dirs.take(k + 1) =~= before.push(dirs[k as int]));
        k += 1;
    }
    assert(dirs.take(dirs.len() as int) =~= dirs);
    out
}

/// The runtime that Steam has, from the places where it could lie and whether each one is
/// usable: the first that is.
pub fn find_steam_sniper_runtime(candidates: &Vec<(String, bool)>) -> (r: Option<String>)
    ensures
        match r {
            Some(p) => exists|i: int|
                #[trigger] steam::exists_first(candidates@, i) && p@ == candidates@[i].0@,
            None => forall|i: int| 0 <= i < candidates@.len() ==> !(#[trigger] candidates@[i]).1,
        },
{
    let mut i: usize = 0;
    while i < candidates.len()
        invariant
            i <= candidates@.len(),
            forall|j: int| 0 <= j < i ==> !(#[trigger] candidates@[j]).1,
        decreases candidates@.len() - i,
    {
        if candidates[i].1 {
            assert(steam::exists_first(candidates@, i as int));
            return Some(candidates[i].0.clone());
        }
        i += 1;
    }
    None
}

/// How far putting the runtime in place has come.
#[derive(Clone, Copy, PartialEq, Eq, Structural, Debug)]
pub enum PrestageStage {
    /// The directory above the destination is being made.
    Creating,
    /// What an earlier attempt left is being removed.
    Clearing,
    /// The runtime is being copied beside the destination.
    Copying,
    /// It is being looked whether the copy has a link to the entry point.
    Checking,
    /// That link is being made.
    Linking,
    /// The copy is being renamed to the destination.
    Renaming,
    /// The copy is being removed.
    Discarding,
    /// There is nothing more to do, and the runtime is in place.
    Finished,
    /// There is nothing more to do, and `umu-run` will download its own runtime.
    Stopped,
}

/// The runtime that Steam has is copied to `staging`, beside `dest`, and then renamed, so
/// that an interrupted copy never leaves half a runtime in place.
pub struct Prestage {
    pub stage: PrestageStage,
    pub src: String,
    pub dest: String,
    pub parent: String,
    pub staging: String,
}

/// What to do next.
pub enum PrestageAction {
    CreateDir(String),
    Remove(String),
    Copy { from: String, to: String },
    /// Look whether there is something at this path.
    Look(String),
    /// Make a link to the first at the second.
    Link { target: String, at: String },
    Rename { from: String, to: String },
    Finish,
    Stop,
}

/// The stage after this one, where `ok` says whether its action succeeded (for `Checking`:
/// whether there is a link). A failure to remove or to link is ignored.
pub open spec fn prestage_next(stage: PrestageStage, ok: bool) -> PrestageStage {
    match stage {
        PrestageStage::Creating => if ok {
            PrestageStage::Clearing
        } else {
            PrestageStage::Stopped
        },
        PrestageStage::Clearing => PrestageStage::Copying,
        PrestageStage::Copying => if ok {
            PrestageStage::Checking
        } else {
            PrestageStage::Discarding
        },
        PrestageStage::Checking => if ok {
            PrestageStage::Renaming
        } else {
            PrestageStage::Linking
        },
        PrestageStage::Linking => PrestageStage::Renaming,
        PrestageStage::Renaming => if ok {
            PrestageStage::Finished
        } else {
            PrestageStage::Discarding
        },
        PrestageStage::Discarding => PrestageStage::Stopped,
        PrestageStage::Finished => PrestageStage::Finished,
        PrestageStage::Stopped => PrestageStage::Stopped,
    }
}

impl Prestage {
    /// The places fit together.
    pub open spec fn wf(self) -> bool {
        &&& path::parent(self.dest@) == Some(self.parent@)
        &&& self.staging@ == path::path_join(self.parent@, ".steamrt3.kyber-stage"@)
    }

    /// Whether the action is the one of the stage.
    pub open spec fn calls_for(self, action: PrestageAction) -> bool {
        match self.stage {
            PrestageStage::Creating => action matches PrestageAction::CreateDir(p) && p@
                == self.parent@,
            PrestageStage::Clearing | PrestageStage::Discarding => action matches PrestageAction::Remove(
                p,
            ) && p@ == self.staging@,
            PrestageStage::Copying => action matches PrestageAction::Copy { from, to } && from@
                == self.src@ && to@ == self.staging@,
            PrestageStage::Checking => action matches PrestageAction::Look(p) && p@
                == path::path_join(self.staging@, "umu"@),
            PrestageStage::Linking => action matches PrestageAction::Link { target, at } && target@
                == "_v2-entry-point"@ && at@ == path::path_join(self.staging@, "umu"@),
            PrestageStage::Renaming => action matches PrestageAction::Rename { from, to } && from@
                == self.staging@ && to@ == self.dest@,
            PrestageStage::Finished => action is Finish,
            PrestageStage::Stopped => action is Stop,
        }
    }

    /// The action of the stage.
    pub fn action(&self) -> (r: PrestageAction)
        ensures
            self.calls_for(r),
    {
        match self.stage {
            PrestageStage::Creating => PrestageAction::CreateDir(self.parent.clone()),
            PrestageStage::Clearing => PrestageAction::Remove(self.staging.clone()),
            PrestageStage::Copying => PrestageAction::Copy {
                from: self.src.clone(),
                to: self.staging.clone(),
            },
            PrestageStage::Checking => PrestageAction::Look(
                join_path(self.staging.as_str(), "umu"),
            ),
            PrestageStage::Linking => PrestageAction::Link {
                target: "_v2-entry-point".to_owned(),
                at: join_path(self.staging.as_str(), "umu"),
            },
            PrestageStage::Renaming => PrestageAction::Rename {
                from: self.staging.clone(),
                to: self.dest.clone(),
            },
            PrestageStage::Discarding => PrestageAction::Remove(self.staging.clone()),
            PrestageStage::Finished => PrestageAction::Finish,
            PrestageStage::Stopped => PrestageAction::Stop,
        }
    }

    /// Goes to the next stage.
    pub fn advance(&mut self, ok: bool)
        ensures
            final(self).stage == prestage_next(old(self).stage, ok),
            final(self).src == old(self).src,
            final(self).dest == old(self).dest,
            final(self).parent == old(self).parent,
            final(self).staging == old(self).staging,
    {
        self.stage = match self.stage {
            PrestageStage::Creating => if ok {
                PrestageStage::Clearing
            } else {
                PrestageStage::Stopped
            },
            PrestageStage::Clearing => PrestageStage::Copying,
            PrestageStage::Copying => if ok {
                PrestageStage::Checking
            } else {
                PrestageStage::Discarding
            },
            PrestageStage::Checking => if ok {
                PrestageStage::Renaming
            } else {
                PrestageStage::Linking
            },
            PrestageStage::Linking => PrestageStage::Renaming,
            PrestageStage::Renaming => if ok {
                PrestageStage::Finished
            } else {
                PrestageStage::Discarding
            },
            PrestageStage::Discarding => PrestageStage::Stopped,
            PrestageStage::Finished => PrestageStage::Finished,
            PrestageStage::Stopped => PrestageStage::Stopped,
        };
    }
}

/// Whether to look for a runtime that Steam has: on a Steam Deck, where the destination is
/// known and there is nothing at it. What `umu-run` has there already, complete or not, is
/// its own to finish.
pub fn wants_prestage(is_deck: bool, dest: Option<&str>, dest_exists: bool) -> (r: bool)
    ensures
        r == (is_deck && dest is Some && !dest_exists),
{
    is_deck && dest.is_some() && !dest_exists
}

/// Begins to put the runtime at `src` (`None` where Steam has none) in place at `dest`.
pub fn prestage_steam_runtime_on_deck(dest: &str, src: Option<&str>) -> (r: Option<Prestage>)
    ensures
        match r {
            Some(p) => {
                &&& p.wf()
                &&& p.stage == PrestageStage::Creating
                &&& p.dest@ == dest@
                &&& src is Some && p.src@ == src->0@
            },
            None => src is None || path::parent(dest@) is None,
        },
{
    match (src, parent_of(dest)) {
        (Some(s), Some(parent)) => {
            let staging = join_path(parent.as_str(), ".steamrt3.kyber-stage");
            Some(
                Prestage {
                    stage: PrestageStage::Creating,
                    src: s.to_owned(),
                    dest: dest.to_owned(),
                    parent,
                    staging,
                },
            )
        },
        _ => None,
    }
}

/// No library is looked at twice.
pub proof fn libraries_are_looked_at_once(list: Seq<Seq<char>>, i: int, j: int)
    requires
        0 <= i < j < distinct(list).len(),
    ensures
        !path::same_path(distinct(list)[i], distinct(list)[j]),
    decreases list.len(),
{
    if list.len() > 0 {
        let before = distinct(list.drop_last());
        if j < before.len() {
            libraries_are_looked_at_once(list.drop_last(), i, j);
        } else if path::same_path(before[i], list.last()) {
            assert(has_path(before, list.last()));
        }
    }
}

/// The stage that is reached when the actions from the beginning end like this.
pub open spec fn prestage_after(results: Seq<bool>) -> PrestageStage
    decreases results.len(),
{
    if results.len() == 0 {
        PrestageStage::Creating
    } else {
        prestage_next(prestage_after(results.drop_last()), results.last())
    }
}

/// The copy is renamed into place only after it was made without a failure.
pub proof fn rename_follows_a_good_copy(results: Seq<bool>)
    requires
        prestage_after(results) == PrestageStage::Renaming || prestage_after(results)
            == PrestageStage::Finished,
    ensures
        results.len() > 2 && results[0] && results[2],
{
    lemma_prestage_path(results);
}

/// Where something was copied, nothing of it is left behind: the last thing that was done
/// before giving up is to remove it.
pub proof fn failed_copy_is_discarded(results: Seq<bool>)
    requires
        results.len() > 2,
        prestage_after(results) == PrestageStage::Stopped,
        prestage_after(results.drop_last()) != PrestageStage::Stopped,
    ensures
        prestage_after(results.drop_last()) == PrestageStage::Discarding,
{
    lemma_prestage_path(results.drop_last());
}

proof fn lemma_prestage_path(results: Seq<bool>)
    ensures
        prestage_after(results) == PrestageStage::Creating ==> results.len() == 0,
        prestage_after(results) == PrestageStage::Clearing ==> results.len() == 1 && results[0],
        prestage_after(results) == PrestageStage::Copying ==> results.len() == 2 && results[0],
        (prestage_after(results) == PrestageStage::Checking || prestage_after(results)
            == PrestageStage::Linking || prestage_after(results) == PrestageStage::Renaming
            || prestage_after(results) == PrestageStage::Finished) ==> results.len() > 2
            && results[0] && results[2],
    decreases results.len(),
{
    if results.len() > 0 {
        lemma_prestage_path(results.drop_last());
    }
}

/// Every library that is listed is looked at, under its own spelling or one of the same path,
/// and nothing else is.
pub proof fn every_library_is_looked_at(list: Seq<Seq<char>>, i: int)
    requires
        0 <= i < list.len(),
    ensures
        has_path(distinct(list), list[i]),
        forall|k: int|
            0 <= k < distinct(list).len() ==> list.contains(#[trigger] distinct(list)[k]),
        distinct(list).len() > 0,
        distinct(list)[0] == list[0],
    decreases list.len(),
{
    let rest = list.drop_last();
    let before = distinct(rest);
    let all = distinct(list);
    if rest.len() > 0 {
        let j = if i < rest.len() {
            i
        } else {
            0
        };
        every_library_is_looked_at(rest, j);
    } else {
        assert(before =~= Seq::empty());
    }
    if i < rest.len() {
        let k = choose|k: int| 0 <= k < before.len() && path::same_path(#[trigger] before[k], rest[i]);
        assert(path::same_path(all[k], list[i]));
    } else if !has_path(before, list.last()) {
        assert(all[before.len() as int] == list.last());
        assert(path::same_path(all[before.len() as int], list[i]));
    } else {
        let k = choose|k: int|
            0 <= k < before.len() && path::same_path(#[trigger] before[k], list.last());
        assert(path::same_path(all[k], list[i]));
    }
    assert forall|k: int| 0 <= k < all.len() implies list.contains(#[trigger] all[k]) by {
        if k < before.len() {
            assert(all[k] == before[k]);
            assert(rest.contains(before[k]));
            let m = choose|m: int| 0 <= m < rest.len() && rest[m] == before[k];
            assert(list[m] == all[k]);
        } else {
            assert(list[list.len() - 1] == all[k]);
        }
    }
}

/// The libraries of several installations are those of the one and then those of the next: all
/// that its list names, and then the installation itself, also where there is no list.
pub proof fn installations_are_searched_in_order(
    roots: Seq<(Seq<char>, Option<Seq<char>>)>,
    root: Seq<char>,
    vdf: Option<Seq<char>>,
)
    ensures
        ({
            let before = all_libraries(roots);
            let all = all_libraries(roots.push((root, vdf)));
            let listed = if vdf is Some {
                steam::library_paths(vdf.unwrap())
            } else {
                Seq::empty()
            };
            &&& all.len() == before.len() + listed.len() + 1
            &&& all.take(before.len() as int) == before
            &&& all.subrange(before.len() as int, all.len() - 1) == listed
            &&& all.last() == root
        }),
{
    let before = all_libraries(roots);
    let all = all_libraries(roots.push((root, vdf)));
    let listed = if vdf is Some {
        steam::library_paths(vdf.unwrap())
    } else {
        Seq::empty()
    };
    assert(roots.push((root, vdf)).drop_last() =~= roots);
    assert(all =~= before + listed.push(root));
    assert(all.take(before.len() as int) =~= before);
    assert(all.subrange(before.len() as int, all.len() - 1) =~= listed);
}

/// Where everything succeeds, the copy is put in place, whether the link to the entry point was
/// there or had to be made, and whether or not anything had to be cleared away.
pub proof fn good_copy_is_put_in_place(cleared: bool, linked: bool)
    ensures
        prestage_after(seq![true, cleared, true, true, true]) == PrestageStage::Finished,
        prestage_after(seq![true, cleared, true, false, linked, true]) == PrestageStage::Finished,
        prestage_after(seq![false]) == PrestageStage::Stopped,
        prestage_after(seq![true, cleared, false]) == PrestageStage::Discarding,
        prestage_after(seq![true, cleared, true, true, false]) == PrestageStage::Discarding,
        prestage_after(seq![true, cleared, true, false, linked, false])
            == PrestageStage::Discarding,
        prestage_after(seq![true, cleared, false, linked]) == PrestageStage::Stopped,
{
    reveal_with_fuel(prestage_after, 7);
    let a = seq![true, cleared, true, true, true];
    let b = seq![true, cleared, true, false, linked, true];
    let c = seq![true, cleared, false];
    let d = seq![true, cleared, true, true, false];
    let e = seq![true, cleared, true, false, linked, false];
    let f = seq![true, cleared, false, linked];
    assert(seq![false].drop_last() =~= Seq::empty());
    assert(seq![true].drop_last() =~= Seq::empty());
    assert(seq![true, cleared].drop_last() =~= seq![true]);
    assert(c.drop_last() =~= seq![true, cleared]);
    assert(f.drop_last() =~= c);
    assert(seq![true, cleared, true].drop_last() =~= seq![true, cleared]);
    assert(seq![true, cleared, true, true].drop_last() =~= seq![true, cleared, true]);
    assert(a.drop_last() =~= seq![true, cleared, true, true]);
    assert(d.drop_last() =~= seq![true, cleared, true, true]);
    assert(seq![true, cleared, true, false].drop_last() =~= seq![true, cleared, true]);
    assert(seq![true, cleared, true, false, linked].drop_last() =~= seq![
        true,
        cleared,
        true,
        false,
    ]);
    assert(b.drop_last() =~= seq![true, cleared, true, false, linked]);
    assert(e.drop_last() =~= seq![true, cleared, true, false, linked]);
}

/// The system is SteamOS exactly where a whole line says so; a line that only begins like it, or
/// that says what the system is derived from, does not.
pub proof fn whole_line_names_steamos(line: Seq<char>, after: Seq<char>, os_release: Seq<char>)
    requires
        !line.contains('\n'),
    ensures
        names_steamos(os_release) <==> exists|i: int|
            0 <= i < text::lines(os_release).len() && ((#[trigger] text::lines(os_release)[i])
                == "ID=steamos"@ || text::lines(os_release)[i] == "ID=\"steamos\""@),
        line == "ID=steamos"@ || line == "ID=\"steamos\""@ ==> names_steamos(line + seq!['\n'] + after),
{
    let lines = text::lines(os_release);
    if names_steamos(os_release) {
        if lines.contains("ID=steamos"@) {
            let i = choose|i: int| 0 <= i < lines.len() && lines[i] == "ID=steamos"@;
            assert(lines[i] == "ID=steamos"@);
        } else {
            let i = choose|i: int| 0 <= i < lines.len() && lines[i] == "ID=\"steamos\""@;
            assert(lines[i] == "ID=\"steamos\""@);
        }
    }
    reveal_strlit("ID=steamos");
    reveal_strlit("ID=\"steamos\"");
    text::text_is_read_line_by_line(line, after);
    if line == "ID=steamos"@ || line == "ID=\"steamos\""@ {
        let all = text::lines(line + seq!['\n'] + after);
        assert(all[0] == line);
        assert(all.contains(line));
    }
}

/// A platform is a directory whose name begins with the mark, whatever follows.
pub proof fn platform_is_told_by_its_name(e: DirEntry, version: Seq<char>)
    requires
        e.name@ == "sniper_platform_"@ + version,
    ensures
        is_platform(e) <==> e.is_dir,
{
    text::text_stands_where_it_was_put(Seq::empty(), "sniper_platform_"@, version);
}

/// The runtime lies at its fixed place in a library.
pub proof fn runtime_lies_in_the_library(library: Seq<char>)
    requires
        library.len() > 0,
        library.last() != '/',
    ensures
        sniper_dir(library) == library + "/steamapps/common/SteamLinuxRuntime_sniper"@,
{
    reveal_strlit("steamapps/common/SteamLinuxRuntime_sniper");
    reveal_strlit("/steamapps/common/SteamLinuxRuntime_sniper");
    assert(sniper_dir(library) =~= library + "/steamapps/common/SteamLinuxRuntime_sniper"@);
}

/// The runtime is copied from where Steam has it to the place beside its destination, and it is
/// that copy which is renamed or removed; nothing else is ever removed.
pub proof fn only_the_copy_is_touched(p: Prestage, action: PrestageAction)
    requires
        p.calls_for(action),
    ensures
        action matches PrestageAction::Copy { from, to } ==> from@ == p.src@ && to@ == p.staging@,
        action matches PrestageAction::Rename { from, to } ==> from@ == p.staging@ && to@ == p.dest@,
        action matches PrestageAction::Remove(dir) ==> dir@ == p.staging@,
        action matches PrestageAction::CreateDir(dir) ==> dir@ == p.parent@,
        action matches PrestageAction::Link { target, at } ==> target@ == "_v2-entry-point"@ && at@
            == path::path_join(p.staging@, "umu"@),
{
}

/// One platform directory is enough, wherever it stands among the entries, and files alone are
/// not.
pub proof fn one_platform_is_enough(entries: Seq<DirEntry>, i: int, version: Seq<char>)
    requires
        0 <= i < entries.len(),
        entries[i].name@ == "sniper_platform_"@ + version,
    ensures
        entries[i].is_dir ==> has_platform(entries),
        (forall|k: int| 0 <= k < entries.len() ==> !(#[trigger] entries[k]).is_dir)
            ==> !has_platform(entries),
{
    platform_is_told_by_its_name(entries[i], version);
}

/// A library that comes later never displaces one that came before it.
pub proof fn libraries_keep_their_order(a: Seq<Seq<char>>, b: Seq<Seq<char>>)
    ensures
        distinct(a).len() <= distinct(a + b).len(),
        distinct(a + b).take(distinct(a).len() as int) == distinct(a),
    decreases b.len(),
{
    if b.len() == 0 {
        assert(a + b =~= a);
        assert(distinct(a).take(distinct(a).len() as int) =~= distinct(a));
    } else {
        libraries_keep_their_order(a, b.drop_last());
        assert((a + b).drop_last() =~= a + b.drop_last());
        assert(distinct(a + b).take(distinct(a).len() as int) =~= distinct(a + b.drop_last()).take(
            distinct(a).len() as int,
        ));
    }
}

/// The copy is made beside its destination, in the same directory.
pub proof fn copy_is_made_beside_its_destination(p: Prestage, dir: Seq<char>, name: Seq<char>)
    requires
        p.wf(),
        p.dest@ == dir + seq!['/'] + name,
        path::is_plain_name(path::PathStyle::Unix, name),
        !path::ends_loosely(path::PathStyle::Unix, dir),
    ensures
        p.parent@ == dir,
        p.staging@ == dir + "/.steamrt3.kyber-stage"@,
{
    reveal_strlit(".steamrt3.kyber-stage");
    reveal_strlit("/.steamrt3.kyber-stage");
    path::parent_of_a_child_is_the_directory(dir, name);
    assert(p.staging@ =~= dir + "/.steamrt3.kyber-stage"@);
}

} // verus!
