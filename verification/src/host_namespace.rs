//! A namespace of its own for a game that hosts a server.
//!
//! The game finds its own address through the name of the machine. Where that name leads to
//! another loopback address than 127.0.0.1, the game's server is not reached by its own
//! client. Such a game runs in a namespace in which the machine is called `localhost`.

use vstd::prelude::*;
use vstd::slice::slice_to_vec;
use vstd::utf8::*;
use crate::number;
use crate::number::decimal_text;
use crate::text;
use crate::text::{cat3, same, trim};

verus! {

/// The flag of `unshare` for a user namespace.
pub const CLONE_NEWUSER: i32 = 0x1000_0000;

/// The flag of `unshare` for a namespace of the machine's name.
pub const CLONE_NEWUTS: i32 = 0x0400_0000;

/// The name of the machine in the namespace.
pub const LOCALHOST: &'static str = "localhost";

/// An address that a name leads to.
#[derive(Clone, Copy, PartialEq, Eq, Structural, Debug)]
pub enum Address {
    V4(u8, u8, u8, u8),
    V6,
}

/// The name of the machine that has to be looked up, from what the system says (`None`
/// where it cannot be asked).
pub open spec fn looked_up(hostname: Option<Seq<char>>) -> Option<Seq<char>> {
    match hostname {
        Some(h) => if text::trimmed(h).len() > 0 && text::trimmed(h) != "localhost"@ {
            Some(text::trimmed(h))
        } else {
            None
        },
        None => None,
    }
}

/// The name of the machine that has to be looked up, if any.
pub fn hostname_to_look_up(hostname: Option<&str>) -> (r: Option<String>)
    ensures
        text::opt_string(r) == looked_up(text::opt_str(hostname)),
{
    match hostname {
        Some(h) => {
            let name = trim(h);
            if name.as_str().is_empty() || same(name.as_str(), LOCALHOST) {
                None
            } else {
                Some(name)
            }
        },
        None => None,
    }
}

/// Whether an address is a loopback address other than 127.0.0.1.
pub open spec fn is_other_loopback(a: Address) -> bool {
    a matches Address::V4(n, _, _, _) && n == 127 && a != Address::V4(127, 0, 0, 1)
}

/// Whether one of the addresses is a loopback address other than 127.0.0.1.
pub open spec fn has_other_loopback(list: Seq<Address>) -> bool {
    exists|i: int| 0 <= i < list.len() && is_other_loopback(#[trigger] list[i])
}

/// Whether the name of the machine leads to a loopback address other than 127.0.0.1, from
/// the name and what its lookup gave (`None` where it failed). Anything unexpected counts as
/// no.
pub fn hostname_is_mismatched_loopback(hostname: Option<&str>, found: Option<&Vec<Address>>) -> (r:
    bool)
    ensures
        r == (looked_up(text::opt_str(hostname)) is Some && match found {
            Some(list) => has_other_loopback(list@),
            None => false,
        }),
{
    if hostname_to_look_up(hostname).is_none() {
        return false;
    }
    let list = match found {
        Some(l) => l,
        None => return false,
    };
    let mut i: usize = 0;
    while i < list.len()
        invariant
            i <= list@.len(),
            found == Some(list),
            looked_up(text::opt_str(hostname)) is Some,
            forall|j: int| 0 <= j < i ==> !is_other_loopback(#[trigger] list@[j]),
        decreases list@.len() - i,
    {
        let other = match list[i] {
            Address::V4(a, b, c, d) => a == 127 && !(b == 0 && c == 0 && d == 1),
            Address::V6 => false,
        };
        assert(other == is_other_loopback(list@[i as int]));
        if other {
            assert(has_other_loopback(list@));
            return true;
        }
        i += 1;
    }
    false
}

/// The map of one ID onto itself, as the kernel reads it.
pub open spec fn id_map(id: u32) -> Seq<char> {
    number::decimal(id as nat) + " "@ + number::decimal(id as nat) + " 1"@
}

fn id_map_bytes(id: u32) -> (r: Vec<u8>)
    ensures
        r@ == encode_utf8(id_map(id)),
{
    let n = decimal_text(id as u64);
    let mut map = cat3(n.as_str(), " ", n.as_str());
    map.append(" 1");
    slice_to_vec(map.as_str().as_bytes())
}

/// A file of the kernel and what is written to it.
pub struct ProcWrite {
    pub path: String,
    pub contents: Vec<u8>,
}

/// The maps of the user and the group in the namespace. Each is mapped onto itself, so that
/// the game runs as the same user: as the superuser it would not start.
pub struct NamespacePlan {
    uid_map: Vec<u8>,
    gid_map: Vec<u8>,
}

impl NamespacePlan {
    pub closed spec fn uid_map(self) -> Seq<u8> {
        self.uid_map@
    }

    pub closed spec fn gid_map(self) -> Seq<u8> {
        self.gid_map@
    }

    /// The plan for a user and a group.
    pub fn new(uid: u32, gid: u32) -> (r: Self)
        ensures
            r.uid_map() == encode_utf8(id_map(uid)),
            r.gid_map() == encode_utf8(id_map(gid)),
    {
        NamespacePlan { uid_map: id_map_bytes(uid), gid_map: id_map_bytes(gid) }
    }

    /// What is written in the namespace, in order. The groups have to be fixed before the
    /// map of the group may be written.
    pub fn writes(&self) -> (r: Vec<ProcWrite>)
        ensures
            r@.len() == 3,
            r@[0].path@ == "/proc/self/setgroups"@,
            r@[0].contents@ == encode_utf8("deny"@),
            r@[1].path@ == "/proc/self/uid_map"@,
            r@[1].contents@ == self.uid_map(),
            r@[2].path@ == "/proc/self/gid_map"@,
            r@[2].contents@ == self.gid_map(),
    {
        vec![
            ProcWrite {
                path: "/proc/self/setgroups".to_owned(),
                contents: slice_to_vec("deny".as_bytes()),
            },
            ProcWrite {
                path: "/proc/self/uid_map".to_owned(),
                contents: slice_to_vec(self.uid_map.as_slice()),
            },
            ProcWrite {
                path: "/proc/self/gid_map".to_owned(),
                contents: slice_to_vec(self.gid_map.as_slice()),
            },
        ]
    }
}

/// The name of the machine is looked up without the white space around it, unless it is blank
/// or `localhost`.
pub proof fn name_is_looked_up_unless_local(h: Seq<char>)
    ensures
        looked_up(None) is None,
        text::trimmed(h).len() == 0 || text::trimmed(h) == "localhost"@ ==> looked_up(Some(h)) is None,
        text::trimmed(h).len() > 0 && text::trimmed(h) != "localhost"@ ==> looked_up(Some(h)) == Some(
            text::trimmed(h),
        ),
{
}

/// Every address of the loopback network but 127.0.0.1 is another loopback address, and no
/// other address is.
pub proof fn other_loopback_addresses(a: u8, b: u8, c: u8, d: u8)
    ensures
        is_other_loopback(Address::V4(a, b, c, d)) <==> a == 127 && (b, c, d) != (0u8, 0u8, 1u8),
        !is_other_loopback(Address::V6),
{
}

/// The map leads one ID onto itself: two numbers that both read as the ID, and a count of one.
pub proof fn id_is_mapped_onto_itself(id: u32)
    ensures
        ({
            let map = id_map(id);
            let n = number::decimal(id as nat).len() as int;
            &&& map.len() == 2 * n + 3
            &&& number::number_of(map.take(n)) == id
            &&& map[n] == ' '
            &&& number::number_of(map.subrange(n + 1, 2 * n + 1)) == id
            &&& map[2 * n + 1] == ' ' && map[2 * n + 2] == '1'
        }),
{
    reveal_strlit(" ");
    reveal_strlit(" 1");
    let map = id_map(id);
    let d = number::decimal(id as nat);
    let n = d.len() as int;
    number::decimal_reads_back(id as nat);
    assert(map.take(n) =~= d);
    assert(map.subrange(n + 1, 2 * n + 1) =~= d);
}

/// Each address is looked at: one more counts where it is another loopback address, or where
/// one of those before it does.
pub proof fn each_address_is_looked_at(list: Seq<Address>, a: Address)
    ensures
        has_other_loopback(list.push(a)) <==> has_other_loopback(list) || is_other_loopback(a),
        !has_other_loopback(Seq::empty()),
{
    let all = list.push(a);
    if is_other_loopback(a) {
        assert(all[list.len() as int] == a);
    }
    if has_other_loopback(list) {
        let i = choose|i: int| 0 <= i < list.len() && is_other_loopback(#[trigger] list[i]);
        assert(all[i] == list[i]);
    }
    if has_other_loopback(all) {
        let i = choose|i: int| 0 <= i < all.len() && is_other_loopback(#[trigger] all[i]);
        if i < list.len() {
            assert(list[i] == all[i]);
        }
    }
}

} // verus!
