//! Path containment for the streaming archive extractor.
//!
//! Archive entry paths are handled as raw bytes with `/` separators, exactly
//! as a tar stream carries them. Every entry is vetted before anything is
//! written: parent-directory components and absolute paths are rejected
//! outright, and a resolved location is only accepted inside the destination
//! directory. A violation aborts the whole extraction; it is never skipped.

use vstd::prelude::*;

use crate::error::TronCtlError;

verus! {

/// Does the path begin at the filesystem root?
pub open spec fn spec_is_absolute(p: Seq<u8>) -> bool {
    p.len() > 0 && p[0] == '/' as u8
}

/// Does some `/`-separated component of the path consist of exactly `..`?
pub open spec fn spec_has_dotdot(p: Seq<u8>) -> bool {
    exists|i: int|
        {
            &&& 0 <= i
            &&& i + 2 <= p.len()
            &&& (i == 0 || p[i - 1] == '/' as u8)
            &&& (i + 2 == p.len() || p[i + 2] == '/' as u8)
            &&& #[trigger] p[i] == '.' as u8
            &&& p[i + 1] == '.' as u8
        }
}

/// An entry path the extractor will touch at all: non-empty, relative, and
/// free of parent-directory components.
pub open spec fn spec_entry_path_safe(p: Seq<u8>) -> bool {
    &&& p.len() > 0
    &&& !spec_is_absolute(p)
    &&& !spec_has_dotdot(p)
}

/// Does some component of `path` consist of exactly `..`?
pub fn has_dotdot_component(path: &Vec<u8>) -> (b: bool)
    ensures
        b == spec_has_dotdot(path@),
{
    let n = path.len();
    if n < 2 {
        proof {
            assert(!spec_has_dotdot(path@));
        }
        return false;
    }
    let mut i: usize = 0;
    while i <= n - 2
        invariant
            2 <= n,
            0 <= i <= n - 1,
            n == path@.len(),
            forall|j: int|
                0 <= j < i && j + 2 <= n ==> !((j == 0 || path@[j - 1] == '/' as u8) && (j + 2 == n
                    || path@[j + 2] == '/' as u8) && #[trigger] path@[j] == '.' as u8 && path@[j + 1]
                    == '.' as u8),
        decreases n - i,
    {
        let at_start = i == 0 || path[i - 1] == '/' as u8;
        let at_end = i + 2 == n || path[i + 2] == '/' as u8;
        if at_start && at_end && path[i] == '.' as u8 && path[i + 1] == '.' as u8 {
            proof {
                assert(spec_has_dotdot(path@));
            }
            return true;
        }
        i = i + 1;
    }
    proof {
        assert(!spec_has_dotdot(path@));
    }
    false
}

/// Vet one archive entry path before anything is created for it: reject an
/// empty or absolute path and any path with a parent-directory component.
/// Succeeds exactly on safe paths; a rejection is the security violation
/// that aborts the extraction.
pub fn check_entry_path(path: &Vec<u8>) -> (r: Result<(), TronCtlError>)
    ensures
        r is Ok <==> spec_entry_path_safe(path@),
        r matches Err(e) ==> e is IoError,
{
    if path.len() == 0 {
        return Err(TronCtlError::IoError(String::from_str("无效的文件路径")));
    }
    if path[0] == '/' as u8 {
        return Err(
            TronCtlError::IoError(String::from_str("拒绝解压绝对路径")),
        );
    }
    if has_dotdot_component(path) {
        return Err(
            TronCtlError::IoError(
                String::from_str("检测到路径遍历攻击（包含 ..）"),
            ),
        );
    }
    Ok(())
}

/// Is `target` the destination itself or a descendant of it, at component
/// granularity? `dest` is expected canonical, without a trailing slash.
pub open spec fn spec_is_contained(dest: Seq<u8>, target: Seq<u8>) -> bool {
    &&& target.len() >= dest.len()
    &&& target.take(dest.len() as int) == dest
    &&& (target.len() == dest.len() || target[dest.len() as int] == '/' as u8)
}

/// Decide whether a resolved location still lies under the destination
/// directory; anything outside aborts the extraction.
pub fn is_contained(dest: &Vec<u8>, target: &Vec<u8>) -> (b: bool)
    ensures
        b == spec_is_contained(dest@, target@),
{
    let dn = dest.len();
    let tn = target.len();
    if tn < dn {
        return false;
    }
    let mut i: usize = 0;
    while i < dn
        invariant
            0 <= i <= dn,
            dn == dest@.len(),
            tn == target@.len(),
            dn <= tn,
            forall|j: int| 0 <= j < i ==> target@[j] == dest@[j],
        decreases dn - i,
    {
        if target[i] != dest[i] {
            proof {
                assert(target@.take(dn as int)[i as int] != dest@[i as int]);
            }
            return false;
        }
        i = i + 1;
    }
    proof {
        assert(target@.take(dn as int) =~= dest@);
    }
    if tn == dn {
        true
    } else {
        target[dn] == '/' as u8
    }
}

/// The location an entry is unpacked to: the entry's path under the
/// destination directory.
pub fn join_entry_path(dest: &Vec<u8>, entry: &Vec<u8>) -> (r: Vec<u8>)
    ensures
        r@ == dest@ + seq!['/' as u8] + entry@,
{
    let mut r = dest.clone();
    r.push('/' as u8);
    r.extend_from_slice(entry.as_slice());
    proof {
        assert(r@ =~= dest@ + seq!['/' as u8] + entry@);
    }
    r
}

/// An archive of only well-formed relative paths lands entirely inside the
/// destination: the location every safe entry is unpacked to is a descendant
/// of the destination directory.
pub proof fn lemma_safe_entry_contained(dest: Seq<u8>, entry: Seq<u8>)
    requires
        spec_entry_path_safe(entry),
    ensures
        spec_is_contained(dest, dest + seq!['/' as u8] + entry),
{
    let target = dest + seq!['/' as u8] + entry;
    assert(target.take(dest.len() as int) =~= dest);
    assert(target[dest.len() as int] == '/' as u8);
}

/// Vet a whole archive's entry paths: succeed only when every entry is safe.
/// The first unsafe entry aborts the check, mirroring the extractor's
/// hard-stop rule.
pub fn validate_entry_paths(paths: &Vec<Vec<u8>>) -> (r: Result<(), TronCtlError>)
    ensures
        r is Ok <==> (forall|i: int|
            0 <= i < paths@.len() ==> spec_entry_path_safe(#[trigger] paths@[i]@)),
        r matches Err(e) ==> e is IoError,
{
    let n = paths.len();
    let mut i: usize = 0;
    while i < n
        invariant
            0 <= i <= n,
            n == paths@.len(),
            forall|j: int| 0 <= j < i ==> spec_entry_path_safe(#[trigger] paths@[j]@),
        decreases n - i,
    {
        match check_entry_path(&paths[i]) {
            Ok(()) => {},
            Err(e) => {
                return Err(e);
            },
        }
        i = i + 1;
    }
    Ok(())
}

} // verus!
