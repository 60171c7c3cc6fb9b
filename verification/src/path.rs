//! Paths of the files an asset refers to.
//!
//! References in an asset file are written with `/` between their
//! components, and every path here is read that way: a sequence of
//! characters in which `/`, and no other character, parts two components. A
//! backslash is a character of a name like any other.

use vstd::prelude::*;
use vstd::string::*;

verus! {

/// A path is relative unless it starts at the root, that is with `/`.
pub open spec fn is_relative(path: Seq<char>) -> bool {
    path.len() == 0 || path[0] != '/'
}

/// Length of the directory part of a path: everything up to and including
/// the last `/`, nothing where the path has none.
pub open spec fn directory_len(path: Seq<char>) -> nat
    decreases path.len(),
{
    if path.len() == 0 {
        0
    } else if path.last() == '/' {
        path.len()
    } else {
        directory_len(path.drop_last())
    }
}

/// The directory part of a path, with its closing `/`.
pub open spec fn directory(path: Seq<char>) -> Seq<char> {
    path.take(directory_len(path) as int)
}

/// The last component of a path.
pub open spec fn file_name(path: Seq<char>) -> Seq<char> {
    path.skip(directory_len(path) as int)
}

/// The path that a reference inside an asset file stands for: a relative
/// reference is taken from the directory of the asset file, an absolute one
/// as it is.
pub open spec fn resolved(asset_path: Seq<char>, reference: Seq<char>) -> Seq<char> {
    if is_relative(reference) {
        directory(asset_path) + reference
    } else {
        reference
    }
}

/// Number of characters in the directory part of the path.
pub fn directory_end(path: &str) -> (end: usize)
    ensures
        end == directory_len(path@),
        end <= path@.len(),
{
    let mut end = path.unicode_len();
    proof {
        assert(path@.take(end as int) == path@);
    }
    while end > 0 && path.get_char(end - 1) != '/'
        invariant
            end <= path@.len(),
            directory_len(path@) == directory_len(path@.take(end as int)),
        decreases end,
    {
        proof {
            assert(path@.take(end as int).drop_last() == path@.take(end - 1));
        }
        end -= 1;
    }
    end
}

/// Resolves a reference found in the asset file at `asset_path`: a relative
/// reference against the directory that holds the asset file, not against
/// the working directory; an absolute one is returned as it is.
///
/// Both paths are read with `/` between their components. The directory of
/// the asset file is what stands before its last `/`, so an asset path that
/// is written with other separators has no directory here.
pub fn resolve(asset_path: &str, reference: &str) -> (path: String)
    ensures
        path@ == resolved(asset_path@, reference@),
{
    let relative = reference.unicode_len() == 0 || reference.get_char(0) != '/';
    if relative {
        let end = directory_end(asset_path);
        let mut path = String::from_str(asset_path.substring_char(0, end));
        path.append(reference);
        path
    } else {
        String::from_str(reference)
    }
}

} // verus!
