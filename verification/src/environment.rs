//! One-shot environment checks before provisioning: privilege, runtime
//! version, and the memory and disk headroom recommendations.
//!
//! Privilege and the runtime version are fatal; short memory or disk are
//! only worth a warning, which the shell prints from the measured values.

use vstd::prelude::*;

use crate::constants::{RECOMMENDED_DISK_GB, RECOMMENDED_MEMORY_GB, REQUIRED_JAVA_VERSION};
use crate::error::TronCtlError;
use crate::strutil::{bytes_contains, spec_contains_seq};
use vstd::string::StringSliceAdditionalSpecFns;

verus! {

/// The UTF-8 bytes a string's characters encode to.
pub open spec fn spec_str_bytes(s: Seq<char>) -> Seq<u8> {
    vstd::utf8::encode_utf8(s)
}

/// Relies on sysinfo's System::new_all and System::total_memory: the
/// machine's installed memory in bytes, from a fresh snapshot.
#[verifier::external_body]
fn total_memory_bytes() -> u64 {
    sysinfo::System::new_all().total_memory()
}

/// Relies on sysinfo's Disks::new_with_refreshed_list and Disks::list: each
/// mounted disk as its mount point and its available space in bytes, in
/// listing order.
#[verifier::external_body]
fn mounted_disks() -> Vec<(String, u64)> {
    sysinfo::Disks::new_with_refreshed_list().list().iter().map(
        |d| (d.mount_point().to_string_lossy().into_owned(), d.available_space()),
    ).collect()
}

/// Relies on nix's Uid::effective().is_root(): whether the effective user
/// is the superuser.
#[verifier::external_body]
fn effective_is_root() -> bool {
    nix::unistd::Uid::effective().is_root()
}

/// Whether the effective user is the superuser.
pub fn is_root() -> bool {
    effective_is_root()
}

/// The privilege rule: a probe that reported the superuser passes, any
/// other fails with InsufficientPermissions — the one fatal privilege
/// error.
pub fn judge_root(effective_root: bool) -> (r: Result<(), TronCtlError>)
    ensures
        r is Ok <==> effective_root,
        r matches Err(e) ==> e is InsufficientPermissions,
{
    if effective_root {
        Ok(())
    } else {
        Err(TronCtlError::InsufficientPermissions)
    }
}

/// Fail unless the effective user is the superuser.
pub fn check_root() -> (r: Result<(), TronCtlError>)
    ensures
        r matches Err(e) ==> e is InsufficientPermissions,
{
    judge_root(is_root())
}

/// Does a mount point govern the path: the path equals it, or lies under it
/// (a mount of `/` governs every absolute path)?
pub open spec fn spec_mount_governs(path: Seq<u8>, mount: Seq<u8>) -> bool {
    let m = spec_strip_trailing_slashes(mount);
    ||| path == m
    ||| (path.len() > m.len() && path.take(m.len() as int) == m && path[m.len() as int] == '/' as u8)
}

/// The mount point without its trailing slashes.
pub open spec fn spec_strip_trailing_slashes(m: Seq<u8>) -> Seq<u8>
    decreases m.len(),
{
    if m.len() > 0 && m.last() == '/' as u8 {
        spec_strip_trailing_slashes(m.drop_last())
    } else {
        m
    }
}

fn strip_trailing_slashes(m: &[u8]) -> (r: usize)
    ensures
        r <= m@.len(),
        m@.take(r as int) == spec_strip_trailing_slashes(m@),
{
    let mut r = m.len();
    proof {
        assert(m@.take(m@.len() as int) =~= m@);
    }
    while r > 0 && m[r - 1] == '/' as u8
        invariant
            0 <= r <= m@.len(),
            spec_strip_trailing_slashes(m@) == spec_strip_trailing_slashes(m@.take(r as int)),
        decreases r,
    {
        proof {
            assert(m@.take(r as int).drop_last() =~= m@.take(r as int - 1));
        }
        r = r - 1;
    }
    proof {
        if r > 0 {
            assert(m@.take(r as int).last() == m@[r - 1]);
        }
    }
    r
}

/// Does the mount point govern the path?
pub fn mount_governs(path: &str, mount: &str) -> (b: bool)
    ensures
        b == spec_mount_governs(spec_str_bytes(path@), spec_str_bytes(mount@)),
{
    let p = path.as_bytes();
    let m = mount.as_bytes();
    let mlen = strip_trailing_slashes(m);
    let plen = p.len();
    proof {
        assert(spec_strip_trailing_slashes(spec_str_bytes(mount@)).len() == mlen as int);
    }
    if plen < mlen {
        return false;
    }
    let mut i: usize = 0;
    while i < mlen
        invariant
            0 <= i <= mlen <= plen,
            plen == p@.len(),
            mlen <= m@.len(),
            p@ == spec_str_bytes(path@),
            m@ == spec_str_bytes(mount@),
            m@.take(mlen as int) == spec_strip_trailing_slashes(m@),
            forall|j: int| 0 <= j < i ==> p@[j] == m@[j],
        decreases mlen - i,
    {
        if p[i] != m[i] {
            proof {
                let stripped = spec_strip_trailing_slashes(spec_str_bytes(mount@));
                assert(stripped =~= m@.take(mlen as int));
                assert(stripped[i as int] == m@[i as int]);
                if p@ == stripped {
                    assert(p@[i as int] == stripped[i as int]);
                }
                if p@.len() > stripped.len() && p@.take(stripped.len() as int) == stripped {
                    assert(p@.take(stripped.len() as int)[i as int] == stripped[i as int]);
                }
            }
            return false;
        }
        i = i + 1;
    }
    proof {
        let stripped = spec_strip_trailing_slashes(spec_str_bytes(mount@));
        assert(stripped =~= m@.take(mlen as int));
        assert(p@.take(mlen as int) =~= stripped);
        if plen == mlen {
            assert(p@ =~= p@.take(mlen as int));
        }
    }
    if plen == mlen {
        true
    } else {
        p[mlen] == '/' as u8
    }
}

/// The free space, in whole GiB, of the first listed disk whose mount point
/// governs the path; zero when no disk does.
pub fn disk_free_gb_from(mounts: &Vec<(String, u64)>, path: &str) -> (r: u64)
    ensures
        (exists|i: int|
            0 <= i < mounts@.len() && spec_mount_governs(
                spec_str_bytes(path@),
                spec_str_bytes((#[trigger] mounts@[i]).0@),
            )) ==> (exists|i: int|
            {
                &&& 0 <= i < mounts@.len()
                &&& spec_mount_governs(
                    spec_str_bytes(path@),
                    spec_str_bytes((#[trigger] mounts@[i]).0@),
                )
                &&& forall|j: int|
                    0 <= j < i ==> !spec_mount_governs(
                        spec_str_bytes(path@),
                        spec_str_bytes((#[trigger] mounts@[j]).0@),
                    )
                &&& r == mounts@[i].1 / 0x40000000
            }),
        (forall|i: int|
            0 <= i < mounts@.len() ==> !spec_mount_governs(
                spec_str_bytes(path@),
                spec_str_bytes((#[trigger] mounts@[i]).0@),
            )) ==> r == 0,
{
    let n = mounts.len();
    let mut i: usize = 0;
    while i < n
        invariant
            0 <= i <= n,
            n == mounts@.len(),
            forall|j: int|
                0 <= j < i ==> !spec_mount_governs(
                    spec_str_bytes(path@),
                    spec_str_bytes((#[trigger] mounts@[j]).0@),
                ),
        decreases n - i,
    {
        if mount_governs(path, mounts[i].0.as_str()) {
            return mounts[i].1 / 0x40000000;
        }
        i = i + 1;
    }
    0
}

/// The free space, in whole GiB, of the disk holding `path`, measured from
/// the live mount table.
pub fn get_disk_free_space(path: &str) -> u64 {
    let mounts = mounted_disks();
    disk_free_gb_from(&mounts, path)
}

/// Does a `java -version` report name the required runtime line? It does
/// exactly when it mentions `1.8` or a quoted `8`.
pub fn java_version_ok(version_output: &str) -> (b: bool)
    ensures
        b == (spec_contains_seq(
            spec_str_bytes(version_output@),
            seq!['1' as u8, '.' as u8, '8' as u8],
        ) || spec_contains_seq(
            spec_str_bytes(version_output@),
            seq!['"' as u8, '8' as u8, '"' as u8],
        )),
{
    let mut needle_dotted: Vec<u8> = Vec::new();
    needle_dotted.push('1' as u8);
    needle_dotted.push('.' as u8);
    needle_dotted.push('8' as u8);
    let mut needle_quoted: Vec<u8> = Vec::new();
    needle_quoted.push('"' as u8);
    needle_quoted.push('8' as u8);
    needle_quoted.push('"' as u8);
    proof {
        assert(needle_dotted@ =~= seq!['1' as u8, '.' as u8, '8' as u8]);
        assert(needle_quoted@ =~= seq!['"' as u8, '8' as u8, '"' as u8]);
    }
    bytes_contains(version_output.as_bytes(), needle_dotted.as_slice()) || bytes_contains(
        version_output.as_bytes(),
        needle_quoted.as_slice(),
    )
}

/// The environment checker.
pub struct EnvironmentChecker;

impl EnvironmentChecker {
    /// Judge a `java -version` report (`None` when the runtime could not be
    /// run at all): fatal unless it names the required line.
    pub fn check_java_version(version_output: &Option<String>) -> (r: Result<(), TronCtlError>)
        ensures
            r is Ok <==> (version_output matches Option::Some(s) && (spec_contains_seq(
                spec_str_bytes(s@),
                seq!['1' as u8, '.' as u8, '8' as u8],
            ) || spec_contains_seq(
                spec_str_bytes(s@),
                seq!['"' as u8, '8' as u8, '"' as u8],
            ))),
            r matches Err(e) ==> if version_output is Some {
                e is IncompatibleJavaVersion
            } else {
                e is ConfigError
            },
    {
        match version_output {
            Option::None => Err(
                TronCtlError::ConfigError(
                    String::from_str("Java 未安装或不在 PATH 中"),
                ),
            ),
            Option::Some(s) => {
                if java_version_ok(s.as_str()) {
                    Ok(())
                } else {
                    Err(
                        TronCtlError::IncompatibleJavaVersion {
                            required: String::from_str(REQUIRED_JAVA_VERSION),
                            current: s.clone(),
                        },
                    )
                }
            },
        }
    }

    /// Fail unless running as the superuser.
    pub fn check_permissions() -> (r: Result<(), TronCtlError>)
        ensures
            r matches Err(e) ==> e is InsufficientPermissions,
    {
        check_root()
    }

    /// The machine's installed memory, in whole GiB.
    pub fn check_memory() -> u64 {
        total_memory_bytes() / 0x40000000
    }

    /// Is the measured memory below the recommendation (worth a warning,
    /// never fatal)?
    pub fn memory_short(total_gb: u64) -> (b: bool)
        ensures
            b == (total_gb < RECOMMENDED_MEMORY_GB),
    {
        total_gb < RECOMMENDED_MEMORY_GB
    }

    /// The free space of the root disk, in whole GiB.
    pub fn check_disk_space() -> u64 {
        get_disk_free_space("/")
    }

    /// Is the measured free disk below the recommendation (worth a warning,
    /// never fatal)?
    pub fn disk_short(available_gb: u64) -> (b: bool)
        ensures
            b == (available_gb < RECOMMENDED_DISK_GB),
    {
        available_gb < RECOMMENDED_DISK_GB
    }

    /// Run every check in order: privilege and the runtime version are
    /// fatal; memory and disk are only measured, their warnings being the
    /// caller's to print.
    pub fn check_all(java_version_output: &Option<String>) -> (r: Result<(), TronCtlError>)
        ensures
            r matches Err(e) ==> (e is InsufficientPermissions || e is ConfigError || e
                is IncompatibleJavaVersion),
    {
        match Self::check_permissions() {
            Err(e) => {
                return Err(e);
            },
            Ok(()) => {},
        }
        match Self::check_java_version(java_version_output) {
            Err(e) => {
                return Err(e);
            },
            Ok(()) => {},
        }
        let _total_gb = Self::check_memory();
        let _available_gb = Self::check_disk_space();
        Ok(())
    }
}

} // verus!
