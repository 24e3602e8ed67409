//! Record-name validation.
//!
//! A record name is turned into a filesystem path by joining it to the
//! store's root directory, so the store accepts a name only when it cannot
//! escape that root: it must be non-empty, must hold no path separator, and
//! must not be the parent-directory segment `..`.

use vstd::prelude::*;
use vstd::string::StrSliceExecFns;

verus! {

/// A character that separates path components on some platform.
pub open spec fn is_separator(c: char) -> bool {
    c == '/' || c == '\\'
}

/// The names the store accepts: non-empty, free of path separators, and
/// not the parent-directory segment. Such a name, joined under the root,
/// stays a single component inside the root directory.
pub open spec fn valid_record_name(s: Seq<char>) -> bool {
    &&& s.len() > 0
    &&& forall|i: int| 0 <= i < s.len() ==> !is_separator(#[trigger] s[i])
    &&& s != seq!['.', '.']
}

/// Decides `valid_record_name` for a concrete name.
pub fn is_valid_record_name(name: &str) -> (r: bool)
    ensures
        r == valid_record_name(name@),
{
    let n: usize = name.unicode_len();
    if n == 0 {
        return false;
    }
    let mut i: usize = 0;
    while i < n
        invariant
            0 <= i <= n,
            n == name@.len(),
            forall|j: int| 0 <= j < i ==> !is_separator(#[trigger] name@[j]),
        decreases n - i,
    {
        let c = name.get_char(i);
        if c == '/' || c == '\\' {
            proof {
                assert(is_separator(name@[i as int]));
            }
            return false;
        }
        i += 1;
    }
    if n == 2 {
        let c0 = name.get_char(0);
        let c1 = name.get_char(1);
        if c0 == '.' && c1 == '.' {
            proof {
                assert(name@ =~= seq!['.', '.']);
            }
            return false;
        }
        proof {
            assert(name@ != seq!['.', '.']) by {
                if name@ == seq!['.', '.'] {
                    assert(name@[0] == '.' && name@[1] == '.');
                }
            }
        }
        return true;
    }
    true
}

/// Law: the empty name, any name holding a path separator, and the
/// parent-directory segment are all rejected, so no accepted name can
/// address anything outside the root directory.
pub proof fn lemma_path_safety(name: Seq<char>)
    requires
        name.len() == 0 || name == seq!['.', '.'] || exists|i: int|
            0 <= i < name.len() && is_separator(name[i]),
    ensures
        !valid_record_name(name),
{
    if name.len() == 0 || name == seq!['.', '.'] {
    } else {
        let i = choose|i: int| 0 <= i < name.len() && is_separator(name[i]);
        assert(is_separator(name[i]));
    }
}

} // verus!
