//! Bundled plugins and agents: when an embedded file must be written out, and
//! which directory holds the bundled copies.

use vstd::prelude::*;
use crate::path_policy::path_comps;
use crate::rag::{sha256_digest, sha256_of};

verus! {

/// Whether a path has a `target` component (a development build's output).
pub open spec fn in_target_dir(path: Seq<char>) -> bool {
    path_comps(path).contains("target"@)
}

/// Whether a path lies inside a cargo `target` directory.
pub fn is_in_target_dir(path: &str) -> (r: bool)
    ensures
        r == in_target_dir(path@),
{
    let v = crate::text::chars_of(path);
    let comps = crate::path_policy::path_comps_exec(&v);
    let mut i: usize = 0;
    while i < comps.len()
        invariant
            i <= comps@.len(),
            crate::text::vviews(comps@) == path_comps(path@),
            forall|k: int| 0 <= k < i ==> path_comps(path@)[k] != "target"@,
        decreases comps@.len() - i,
    {
        if crate::text::vec_eq_str(&comps[i], "target") {
            assert(path_comps(path@)[i as int] == "target"@);
            return true;
        }
        i = i + 1;
    }
    false
}

/// The SHA-256 digest of some bytes (32 bytes).
pub fn sha256(data: &[u8]) -> (r: Vec<u8>)
    ensures
        r@ == sha256_of(data@),
        r@.len() == 32,
{
    sha256_digest(data)
}

/// What is at the destination of an embedded file.
pub enum Existing<'a> {
    /// Nothing.
    Absent,
    /// A file that could not be read.
    Unreadable,
    /// A file with these bytes.
    Bytes(&'a [u8]),
}

/// Whether an embedded file is written out: when nothing is there, when what is
/// there cannot be read, or when its SHA-256 digest differs from the embedded one.
pub fn needs_write(existing: Existing, embedded: &[u8]) -> (r: bool)
    ensures
        match existing {
            Existing::Absent => r,
            Existing::Unreadable => r,
            Existing::Bytes(b) => r == (sha256_of(b@) != sha256_of(embedded@)),
        },
{
    match existing {
        Existing::Absent => true,
        Existing::Unreadable => true,
        Existing::Bytes(b) => {
            let h1 = sha256(b);
            let h2 = sha256(embedded);
            !bytes_eq(&h1, &h2)
        },
    }
}

fn bytes_eq(a: &Vec<u8>, b: &Vec<u8>) -> (r: bool)
    ensures
        r == (a@ == b@),
{
    if a.len() != b.len() {
        return false;
    }
    let mut i: usize = 0;
    while i < a.len()
        invariant
            i <= a@.len() == b@.len(),
            forall|k: int| 0 <= k < i ==> a@[k] == b@[k],
        decreases a@.len() - i,
    {
        if a[i] != b[i] {
            return false;
        }
        i = i + 1;
    }
    assert(a@ =~= b@);
    true
}

/// Which bundled directory is used: the extracted copy when it exists, else the
/// copy beside a development build (inside `target`), else none.
pub fn choose_bundled_dir(data_dir: Option<String>, data_dir_exists: bool, dev_dir: Option<String>, dev_dir_exists: bool) -> (r: Option<String>)
    ensures
        r == (if data_dir is Some && data_dir_exists {
            data_dir
        } else if dev_dir is Some && dev_dir_exists && in_target_dir(dev_dir->0@) {
            dev_dir
        } else {
            None
        }),
{
    match data_dir {
        Some(d) => {
            if data_dir_exists {
                return Some(d);
            }
        },
        None => {},
    }
    match dev_dir {
        Some(d) => {
            if dev_dir_exists && is_in_target_dir(d.as_str()) {
                Some(d)
            } else {
                None
            }
        },
        None => None,
    }
}

} // verus!
