//! Derivation of relative lookup keys from scanned paths.
//!
//! The scanner hands over absolute paths that all lie under the scan root.
//! Stripping the root prefix (and the separator that follows it) yields the
//! relative key under which the file's bytes are indexed. A path without the
//! root as a prefix is a violated scanner invariant and a fatal build error.

use vstd::prelude::*;
use crate::errors::BuildError;

verus! {

/// The relative key obtained by stripping `root` from the front of `path`:
/// the remainder after the root and the separator joining them, the bare
/// remainder when the root already ends in a separator, and nothing when the
/// root is not a prefix followed by a separator.
pub open spec fn strip_root_spec(root: Seq<char>, path: Seq<char>) -> Option<Seq<char>> {
    if path.len() < root.len() || path.subrange(0, root.len() as int) != root {
        None
    } else if root.len() > 0 && root.last() == '/' {
        Some(path.skip(root.len() as int))
    } else if path.len() > root.len() && path[root.len() as int] == '/' {
        Some(path.skip(root.len() as int + 1))
    } else {
        None
    }
}

/// Strips the scan root from a discovered path to produce its lookup key.
pub fn relative_key(root: &str, path: &str) -> (r: Result<String, BuildError>)
    ensures
        match r {
            Ok(key) => strip_root_spec(root@, path@) == Some(key@),
            Err(e) => e == BuildError::NotUnderRoot && strip_root_spec(root@, path@) is None,
        },
{
    let root_len = root.unicode_len();
    let path_len = path.unicode_len();
    if path_len < root_len {
        return Err(BuildError::NotUnderRoot);
    }
    let mut i: usize = 0;
    while i < root_len
        invariant
            0 <= i <= root_len,
            root_len == root@.len(),
            root_len <= path_len == path@.len(),
            forall|j: int| 0 <= j < i ==> path@[j] == root@[j],
        decreases root_len - i,
    {
        if path.get_char(i) != root.get_char(i) {
            proof {
                assert(path@.subrange(0, root@.len() as int)[i as int] != root@[i as int]);
            }
            return Err(BuildError::NotUnderRoot);
        }
        i += 1;
    }
    proof {
        assert(path@.subrange(0, root@.len() as int) =~= root@);
    }
    if root_len > 0 && root.get_char(root_len - 1) == '/' {
        let rest = path.substring_char(root_len, path_len);
        proof {
            assert(path@.subrange(root@.len() as int, path@.len() as int) =~= path@.skip(
                root@.len() as int,
            ));
        }
        Ok(rest.to_owned())
    } else if path_len > root_len && path.get_char(root_len) == '/' {
        let rest = path.substring_char(root_len + 1, path_len);
        proof {
            assert(path@.subrange(root@.len() as int + 1, path@.len() as int) =~= path@.skip(
                root@.len() as int + 1,
            ));
        }
        Ok(rest.to_owned())
    } else {
        Err(BuildError::NotUnderRoot)
    }
}

} // verus!
