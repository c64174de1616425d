//! Names of users, repositories, branches and files.
use vstd::prelude::*;
use vstd::string::StrSliceExecFns;

verus! {

/// A character that may not stand in a name: it would separate path segments
/// or end a string early.
pub open spec fn forbidden_char(c: char) -> bool {
    c == '/' || c == '\\' || c == '\0'
}

/// A name is usable as one path segment: not empty, not `.` or `..`, and free
/// of separators and null characters.
pub open spec fn valid_name(s: Seq<char>) -> bool {
    &&& s.len() > 0
    &&& s != seq!['.']
    &&& s != seq!['.', '.']
    &&& forall|i: int| 0 <= i < s.len() ==> !forbidden_char(#[trigger] s[i])
}

/// Tells whether `s` is a valid name.
pub fn is_valid_name(s: &str) -> (r: bool)
    ensures
        r == valid_name(s@),
{
    let n = s.unicode_len();
    if n == 0 {
        return false;
    }
    let mut only_dots = true;
    let mut i: usize = 0;
    while i < n
        invariant
            n == s@.len(),
            i <= n,
            forall|j: int| 0 <= j < i ==> !forbidden_char(#[trigger] s@[j]),
            only_dots == (forall|j: int| 0 <= j < i ==> #[trigger] s@[j] == '.'),
        decreases n - i,
    {
        let c = s.get_char(i);
        if c == '/' || c == '\\' || c == '\0' {
            return false;
        }
        if c != '.' {
            only_dots = false;
        }
        i = i + 1;
    }
    if only_dots && n <= 2 {
        if n == 1 {
            assert(s@ =~= seq!['.']);
        } else {
            assert(s@ =~= seq!['.', '.']);
        }
        false
    } else {
        assert(s@.len() > 2 || exists|j: int| 0 <= j < n && s@[j] != '.');
        true
    }
}

} // verus!
