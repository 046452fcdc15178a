//! Routing of the `wine/proton` mount point.
//!
//! The path that Proton is run from never changes. Whether it holds the managed Proton or
//! one that the user chose is decided at that path itself, which together with
//! `wine/proton.maxima-backup` is in one of four states:
//!
//! | `proton`                    | `proton.maxima-backup` |                             |
//! |-----------------------------|------------------------|-----------------------------|
//! | the managed directory       | absent                 | default                     |
//! | a link to the chosen Proton | the managed directory  | custom                      |
//! | absent                      | absent                 | before the first install    |
//! | absent                      | the managed directory  | after a crash mid-swap      |

use vstd::prelude::*;
use crate::path;
use crate::path::paths_equal;
use crate::text;

verus! {

/// What stands at the mount point.
pub enum MountPoint {
    Absent,
    Directory,
    /// A symbolic link, with its target where that can be read.
    Link(Option<String>),
    Other,
}

/// One change to the mount point or its backup.
pub enum RoutingAction {
    /// Rename the directory at the mount point to the backup.
    MoveAside,
    /// Remove the link at the mount point.
    RemoveLink,
    /// Make the mount point a link to this directory.
    LinkTo(String),
    /// Rename the backup to the mount point.
    Restore,
}

/// Why the mount point is left as it is.
pub enum RoutingError {
    /// The chosen directory does not look like a Proton install.
    CustomProtonInvalid(String),
    /// There is a directory at the mount point and a backup too.
    BackupInTheWay,
}

/// `MountPoint` with texts in place of strings.
pub ghost enum Mount {
    Absent,
    Directory,
    Link(Option<Seq<char>>),
    Other,
}

/// `RoutingAction` with texts in place of strings.
pub ghost enum Step {
    MoveAside,
    RemoveLink,
    LinkTo(Seq<char>),
    Restore,
}

impl View for MountPoint {
    type V = Mount;

    open spec fn view(&self) -> Mount {
        match *self {
            MountPoint::Absent => Mount::Absent,
            MountPoint::Directory => Mount::Directory,
            MountPoint::Link(t) => Mount::Link(text::opt_string(t)),
            MountPoint::Other => Mount::Other,
        }
    }
}

impl View for RoutingAction {
    type V = Step;

    open spec fn view(&self) -> Step {
        match *self {
            RoutingAction::MoveAside => Step::MoveAside,
            RoutingAction::RemoveLink => Step::RemoveLink,
            RoutingAction::LinkTo(t) => Step::LinkTo(t@),
            RoutingAction::Restore => Step::Restore,
        }
    }
}

/// The mount point and whether there is a backup.
pub ghost struct Tree {
    pub proton: Mount,
    pub backup: bool,
}

/// The steps of a list of actions.
pub open spec fn steps(actions: Seq<RoutingAction>) -> Seq<Step> {
    actions.map_values(|a: RoutingAction| a@)
}

/// Whether the mount point is a link to `target`.
pub open spec fn links_to(proton: Mount, target: Seq<char>) -> bool {
    match proton {
        Mount::Link(Some(t)) => path::same_path(t, target),
        _ => false,
    }
}

/// The steps that make the mount point a link to the chosen Proton (`Some`), or that give
/// it back to the managed one (`None`).
pub open spec fn routing_plan(t: Tree, custom: Option<Seq<char>>) -> Seq<Step> {
    match custom {
        Some(target) => if links_to(t.proton, target) {
            seq![]
        } else {
            match t.proton {
                Mount::Directory => seq![Step::MoveAside, Step::LinkTo(target)],
                Mount::Link(_) => seq![Step::RemoveLink, Step::LinkTo(target)],
                _ => seq![Step::LinkTo(target)],
            }
        },
        None => match t.proton {
            Mount::Link(_) => if t.backup {
                seq![Step::RemoveLink, Step::Restore]
            } else {
                seq![Step::RemoveLink]
            },
            Mount::Absent => if t.backup {
                seq![Step::Restore]
            } else {
                seq![]
            },
            _ => seq![],
        },
    }
}

/// Whether a step can be taken without replacing anything.
pub open spec fn can_step(t: Tree, step: Step) -> bool {
    match step {
        Step::MoveAside => t.proton is Directory && !t.backup,
        Step::RemoveLink => t.proton is Link,
        Step::LinkTo(_) => t.proton is Absent,
        Step::Restore => t.proton is Absent && t.backup,
    }
}

/// What a step makes of the mount point and its backup.
pub open spec fn after_step(t: Tree, step: Step) -> Tree {
    match step {
        Step::MoveAside => Tree { proton: Mount::Absent, backup: true },
        Step::RemoveLink => Tree { proton: Mount::Absent, ..t },
        Step::LinkTo(target) => Tree { proton: Mount::Link(Some(target)), ..t },
        Step::Restore => Tree { proton: Mount::Directory, backup: false },
    }
}

/// What the steps make of the mount point and its backup, one after the other.
pub open spec fn after_steps(t: Tree, list: Seq<Step>) -> Tree
    decreases list.len(),
{
    if list.len() == 0 {
        t
    } else {
        after_steps(after_step(t, list[0]), list.skip(1))
    }
}

/// Whether the steps can be taken one after the other without replacing anything.
pub open spec fn can_run(t: Tree, list: Seq<Step>) -> bool
    decreases list.len(),
{
    list.len() > 0 ==> can_step(t, list[0]) && can_run(after_step(t, list[0]), list.skip(1))
}

/// The number of copies of a Proton directory at the mount point and in the backup.
pub open spec fn directories(t: Tree) -> int {
    (if t.proton is Directory {
        1int
    } else {
        0
    }) + (if t.backup {
        1int
    } else {
        0
    })
}

/// The actions that route the mount point, given the Proton that the user chose or that was
/// found on the system, whether that one looks like a Proton install, what stands at the
/// mount point and whether there is a backup.
pub fn ensure_proton_routing(
    custom: Option<&str>,
    layout_valid: bool,
    proton: &MountPoint,
    backup_exists: bool,
) -> (r: Result<Vec<RoutingAction>, RoutingError>)
    ensures
        match r {
            Ok(actions) => {
                &&& custom is Some ==> layout_valid && !(proton@ is Directory && backup_exists)
                &&& steps(actions@) == routing_plan(
                    Tree { proton: proton@, backup: backup_exists },
                    text::opt_str(custom),
                )
            },
            Err(RoutingError::CustomProtonInvalid(p)) => custom is Some && !layout_valid && p@
                == custom->0@,
            Err(RoutingError::BackupInTheWay) => custom is Some && layout_valid
                && proton@ is Directory && backup_exists,
        },
{
    let mut actions: Vec<RoutingAction> = Vec::new();
    match custom {
        Some(target) => {
            if !layout_valid {
                return Err(RoutingError::CustomProtonInvalid(target.to_owned()));
            }
            match proton {
                MountPoint::Directory => {
                    if backup_exists {
                        return Err(RoutingError::BackupInTheWay);
                    }
                    actions.push(RoutingAction::MoveAside);
                },
                MountPoint::Link(link) => {
                    match link {
                        Some(t) => {
                            if paths_equal(t.as_str(), target) {
                                assert(steps(actions@) =~= seq![]);
                                return Ok(actions);
                            }
                        },
                        None => {},
                    }
                    actions.push(RoutingAction::RemoveLink);
                },
                _ => {},
            }
            actions.push(RoutingAction::LinkTo(target.to_owned()));
        },
        None => {
            let gone = match proton {
                MountPoint::Link(_) => {
                    actions.push(RoutingAction::RemoveLink);
                    true
                },
                MountPoint::Absent => true,
                _ => false,
            };
            if gone && backup_exists {
                actions.push(RoutingAction::Restore);
            }
        },
    }
    assert(steps(actions@) =~= routing_plan(
        Tree { proton: proton@, backup: backup_exists },
        text::opt_str(custom),
    ));
    Ok(actions)
}

/// The plan can be carried out step by step without replacing anything, and leaves the
/// mount point a link to the chosen Proton, or else no link. It needs a mount point that
/// is not some other kind of file, and no backup beside a directory that has to move.
pub proof fn routing_reaches_target(t: Tree, custom: Option<Seq<char>>)
    requires
        !(t.proton is Other),
        custom is Some ==> !(t.proton is Directory && t.backup),
    ensures
        can_run(t, routing_plan(t, custom)),
        ({
            let end = after_steps(t, routing_plan(t, custom));
            match custom {
                Some(target) => links_to(end.proton, target),
                None => !(end.proton is Link) && (end.backup ==> end.proton is Directory),
            }
        }),
{
    reveal_with_fuel(after_steps, 3);
    reveal_with_fuel(can_run, 3);
}

/// Routing never loses or duplicates a Proton directory.
pub proof fn routing_keeps_directories(t: Tree, custom: Option<Seq<char>>)
    requires
        !(t.proton is Other),
        custom is Some ==> !(t.proton is Directory && t.backup),
    ensures
        directories(after_steps(t, routing_plan(t, custom))) == directories(t),
{
    reveal_with_fuel(after_steps, 3);
}

/// Routing is idempotent: once it is done there is nothing left to do.
pub proof fn routing_is_idempotent(t: Tree, custom: Option<Seq<char>>)
    requires
        !(t.proton is Other),
        custom is Some ==> !(t.proton is Directory && t.backup),
    ensures
        routing_plan(after_steps(t, routing_plan(t, custom)), custom) == Seq::<Step>::empty(),
{
    reveal_with_fuel(after_steps, 3);
}

/// A backup without a mount point, as a crash in the middle of a swap leaves it, is healed
/// by the next routing: to the default state, or to the custom one.
pub proof fn routing_heals_a_crash(custom: Option<Seq<char>>)
    ensures
        ({
            let t = Tree { proton: Mount::Absent, backup: true };
            after_steps(t, routing_plan(t, custom)) == match custom {
                Some(target) => Tree { proton: Mount::Link(Some(target)), backup: true },
                None => Tree { proton: Mount::Directory, backup: false },
            }
        }),
{
    reveal_with_fuel(after_steps, 3);
}

/// Choosing a Proton and then going back to the managed one restores the default state.
pub proof fn routing_round_trip(target: Seq<char>)
    ensures
        ({
            let managed = Tree { proton: Mount::Directory, backup: false };
            let chosen = after_steps(managed, routing_plan(managed, Some(target)));
            &&& chosen == Tree { proton: Mount::Link(Some(target)), backup: true }
            &&& after_steps(chosen, routing_plan(chosen, None)) == managed
        }),
{
    reveal_with_fuel(after_steps, 3);
}

/// With a Proton that the user chose, the mount point ends as a link to it: the link that was
/// there, where that leads to the same path, and otherwise a new one to exactly that directory.
pub proof fn chosen_proton_is_linked(t: Tree, target: Seq<char>)
    requires
        !(t.proton is Other),
        !(t.proton is Directory && t.backup),
    ensures
        ({
            let end = after_steps(t, routing_plan(t, Some(target))).proton;
            match t.proton {
                Mount::Link(Some(old)) if path::is_absolute(old) == path::is_absolute(target)
                    && path::names(old) == path::names(target) => end == t.proton,
                _ => end == Mount::Link(Some(target)),
            }
        }),
{
    reveal_with_fuel(after_steps, 3);
}

/// Without a choice, a link is removed whatever it leads to, a backup is put back where its place
/// is free, and a managed directory is left alone.
pub proof fn managed_proton_comes_back(t: Tree)
    requires
        !(t.proton is Other),
    ensures
        ({
            let end = after_steps(t, routing_plan(t, None));
            if t.proton is Directory {
                end == t
            } else if t.backup {
                end == Tree { proton: Mount::Directory, backup: false }
            } else {
                end == Tree { proton: Mount::Absent, backup: false }
            }
        }),
{
    reveal_with_fuel(after_steps, 3);
}

} // verus!
