//! Which disk holds a path, and how much room is left on it. A disk holds a
//! path when its mount point is a leading part of the path, compared
//! component by component; the disk with the longest mount point wins.

use vstd::prelude::*;
use vstd::utf8::encode_utf8;

verus! {

/// A mounted disk: where it is mounted and how many bytes are free on it.
pub struct DiskInfo {
    pub mount_point: String,
    pub available_space: u64,
}

/// What `std::path::Path::starts_with` answers for `path` and `base`: whether
/// the components of `base` are the leading components of `path`.
pub uninterp spec fn path_starts_with_spec(path: Seq<char>, base: Seq<char>) -> bool;

/// Whether `base` is a leading part of `path`, compared component by
/// component (`std::path::Path::starts_with`). The answer is that of
/// `path_starts_with_spec`, which depends on the two texts alone.
#[verifier::external_body]
fn path_starts_with(path: &str, base: &str) -> (b: bool)
    ensures
        b == path_starts_with_spec(path@, base@),
{
    std::path::Path::new(path).starts_with(base)
}

/// The length in bytes of a mount point.
pub open spec fn mount_len(d: DiskInfo) -> usize {
    encode_utf8(d.mount_point@).len() as usize
}

/// Disk `i` holds `path`.
pub open spec fn holds(disks: Seq<DiskInfo>, path: Seq<char>, i: int) -> bool {
    0 <= i < disks.len() && path_starts_with_spec(path, disks[i].mount_point@)
}

/// Disk `i` is the one chosen for `path`: it holds the path, no disk that
/// holds it has a longer mount point, and every earlier one that holds it
/// has a shorter one (the disks are taken longest mount point first, in
/// their listed order where lengths tie).
pub open spec fn chosen(disks: Seq<DiskInfo>, path: Seq<char>, i: int) -> bool {
    &&& holds(disks, path, i)
    &&& forall|j: int| #[trigger] holds(disks, path, j) ==> mount_len(disks[j]) <= mount_len(disks[i])
    &&& forall|j: int| 0 <= j < i && #[trigger] holds(disks, path, j) ==> mount_len(disks[j]) < mount_len(disks[i])
}

/// Some disk holds `path`.
pub open spec fn some_disk_holds(disks: Seq<DiskInfo>, path: Seq<char>) -> bool {
    exists|i: int| #[trigger] holds(disks, path, i)
}

/// The free bytes on the disk chosen for `path`, or none when no disk holds it.
pub open spec fn available_spec(disks: Seq<DiskInfo>, path: Seq<char>, r: Option<u64>) -> bool {
    match r {
        Some(a) => exists|i: int| #[trigger] chosen(disks, path, i) && disks[i].available_space == a,
        None => !some_disk_holds(disks, path),
    }
}

/// Some disk holds both paths.
pub open spec fn same_disk_spec(disks: Seq<DiskInfo>, path1: Seq<char>, path2: Seq<char>) -> bool {
    exists|i: int| #[trigger] holds(disks, path1, i) && holds(disks, path2, i)
}

/// At most one disk is the chosen one.
pub proof fn law_chosen_unique(disks: Seq<DiskInfo>, path: Seq<char>, i: int, j: int)
    requires
        chosen(disks, path, i),
        chosen(disks, path, j),
    ensures
        i == j,
{
    if i < j {
        assert(holds(disks, path, i));
    } else if j < i {
        assert(holds(disks, path, j));
    }
}

/// The byte length of a mount point.
fn mount_len_of(d: &DiskInfo) -> (n: usize)
    ensures
        n == mount_len(*d),
{
    d.mount_point.as_str().len()
}

/// The free bytes on the disk that holds `path` (a canonical path where one
/// could be had), among `disks`; `None` when no disk holds it.
pub fn available(disks: &Vec<DiskInfo>, path: &str) -> (r: Option<u64>)
    ensures
        available_spec(disks@, path@, r),
{
    let mut best: Option<usize> = None;
    let mut best_len: usize = 0;
    let mut i: usize = 0;
    while i < disks.len()
        invariant
            i <= disks.len(),
            match best {
                Some(b) => {
                    &&& b < i
                    &&& best_len == mount_len(disks@[b as int])
                    &&& holds(disks@, path@, b as int)
                    &&& forall|j: int| 0 <= j < i && #[trigger] holds(disks@, path@, j) ==> mount_len(disks@[j]) <= best_len
                    &&& forall|j: int| 0 <= j < b && #[trigger] holds(disks@, path@, j) ==> mount_len(disks@[j]) < best_len
                },
                None => forall|j: int| 0 <= j < i ==> !#[trigger] holds(disks@, path@, j),
            },
        decreases disks.len() - i,
    {
        let d = &disks[i];
        if path_starts_with(path, d.mount_point.as_str()) {
            let len = mount_len_of(d);
            match best {
                Some(_) => {
                    if len > best_len {
                        best = Some(i);
                        best_len = len;
                    }
                },
                None => {
                    best = Some(i);
                    best_len = len;
                },
            }
        }
        i = i + 1;
    }
    match best {
        Some(b) => {
            assert(chosen(disks@, path@, b as int));
            Some(disks[b].available_space)
        },
        None => {
            assert forall|j: int| !#[trigger] holds(disks@, path@, j) by {
                if 0 <= j < disks@.len() {
                    assert(!holds(disks@, path@, j));
                }
            }
            None
        },
    }
}

/// Whether one disk among `disks` holds both paths.
pub fn is_same_disk(disks: &Vec<DiskInfo>, path1: &str, path2: &str) -> (same: bool)
    ensures
        same == same_disk_spec(disks@, path1@, path2@),
{
    let mut i: usize = 0;
    while i < disks.len()
        invariant
            i <= disks.len(),
            forall|j: int| 0 <= j < i ==> !(#[trigger] holds(disks@, path1@, j) && holds(disks@, path2@, j)),
        decreases disks.len() - i,
    {
        let m = disks[i].mount_point.as_str();
        if path_starts_with(path1, m) && path_starts_with(path2, m) {
            assert(holds(disks@, path1@, i as int) && holds(disks@, path2@, i as int));
            return true;
        }
        i = i + 1;
    }
    assert forall|j: int| !(#[trigger] holds(disks@, path1@, j) && holds(disks@, path2@, j)) by {
        if 0 <= j < disks@.len() {
            assert(!(holds(disks@, path1@, j) && holds(disks@, path2@, j)));
        }
    }
    false
}

/// Two paths are on the same disk whichever is named first.
pub proof fn law_same_disk_symmetric(disks: Seq<DiskInfo>, path1: Seq<char>, path2: Seq<char>)
    ensures
        same_disk_spec(disks, path1, path2) == same_disk_spec(disks, path2, path1),
{
    if same_disk_spec(disks, path1, path2) {
        let i = choose|i: int| #[trigger] holds(disks, path1, i) && holds(disks, path2, i);
        assert(holds(disks, path2, i) && holds(disks, path1, i));
    }
    if same_disk_spec(disks, path2, path1) {
        let i = choose|i: int| #[trigger] holds(disks, path2, i) && holds(disks, path1, i);
        assert(holds(disks, path1, i) && holds(disks, path2, i));
    }
}

/// A path is on the same disk as itself exactly when some disk holds it,
/// that is, when the free space of its disk can be told.
pub proof fn law_same_disk_reflexive(disks: Seq<DiskInfo>, path: Seq<char>, r: Option<u64>)
    requires
        available_spec(disks, path, r),
    ensures
        same_disk_spec(disks, path, path) == (r is Some),
{
    if r is Some {
        let i = choose|i: int| #[trigger] chosen(disks, path, i) && disks[i].available_space == r->0;
        assert(holds(disks, path, i) && holds(disks, path, i));
    }
    if same_disk_spec(disks, path, path) {
        let i = choose|i: int| #[trigger] holds(disks, path, i) && holds(disks, path, i);
        assert(some_disk_holds(disks, path));
    }
}

} // verus!
