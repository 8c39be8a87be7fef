//! Small helpers: the OS error code, the byte search that package and
//! privilege checks use to read a command's listing, the name search that
//! group-membership checks use, and the refusal phrase the admin check
//! scans a sudo listing for.

use vstd::prelude::*;
use vstd::string::StringExecFns;

verus! {

/// Relies on `std::io::Error::last_os_error`: returns the calling thread's
/// last OS error code, or 0 when none is recorded. The value depends on what
/// the thread did before the call, so nothing is promised of it.
#[verifier::external_body]
pub fn errno() -> i32 {
    std::io::Error::last_os_error().raw_os_error().unwrap_or(0)
}

/// True when `needle` occurs in `haystack` starting at position `i`.
pub open spec fn occurs_at(haystack: Seq<u8>, needle: Seq<u8>, i: int) -> bool {
    0 <= i && i + needle.len() <= haystack.len() && haystack.subrange(i, i + needle.len())
        == needle
}

/// True when `needle` occurs somewhere in `haystack`.
pub open spec fn occurs_in(haystack: Seq<u8>, needle: Seq<u8>) -> bool {
    exists|i: int| occurs_at(haystack, needle, i)
}

fn match_at(haystack: &Vec<u8>, needle: &Vec<u8>, i: usize) -> (r: bool)
    requires
        i + needle@.len() <= haystack@.len(),
    ensures
        r == occurs_at(haystack@, needle@, i as int),
{
    let hl = haystack.len();
    let nl = needle.len();
    let mut k: usize = 0;
    while k < nl
        invariant
            i + needle@.len() <= haystack@.len(),
            hl == haystack@.len(),
            nl == needle@.len(),
            k <= nl,
            forall|m: int| 0 <= m < k ==> haystack@[i + m] == needle@[m],
        decreases nl - k,
    {
        if haystack[i + k] != needle[k] {
            proof {
                assert(haystack@.subrange(i as int, i + needle@.len())[k as int] == haystack@[i
                    + k]);
            }
            return false;
        }
        k += 1;
    }
    proof {
        assert(haystack@.subrange(i as int, i + needle@.len()) =~= needle@);
    }
    true
}

/// Whether the byte string `needle` occurs anywhere in `haystack`: how a
/// check decides if a package listing names its package. The empty needle
/// occurs in everything.
pub fn bytes_contain(haystack: &Vec<u8>, needle: &Vec<u8>) -> (r: bool)
    ensures
        r == occurs_in(haystack@, needle@),
{
    let hl = haystack.len();
    let nl = needle.len();
    if nl > hl {
        proof {
            assert forall|i: int| !occurs_at(haystack@, needle@, i) by {}
        }
        return false;
    }
    if nl == 0 {
        proof {
            assert(haystack@.subrange(0, 0) =~= needle@);
            assert(occurs_at(haystack@, needle@, 0));
        }
        return true;
    }
    let mut i: usize = 0;
    while i <= hl - nl
        invariant
            1 <= nl <= hl,
            hl == haystack@.len(),
            nl == needle@.len(),
            i <= hl - nl + 1,
            forall|j: int| 0 <= j < i ==> !occurs_at(haystack@, needle@, j),
        decreases hl - nl + 1 - i,
    {
        if match_at(haystack, needle, i) {
            return true;
        }
        i += 1;
    }
    proof {
        assert forall|j: int| !occurs_at(haystack@, needle@, j) by {
            if 0 <= j <= hl - nl {
                assert(!occurs_at(haystack@, needle@, j));
            }
        }
    }
    false
}

/// True when some member of `list` is the name `n`.
pub open spec fn lists_name(list: Seq<String>, n: Seq<char>) -> bool {
    exists|i: int| 0 <= i < list.len() && list[i]@ == n
}

/// Whether `name` stands in `list`: how a group-membership check reads a
/// group's member list.
pub fn list_contains(list: &Vec<String>, name: &String) -> (r: bool)
    ensures
        r == lists_name(list@, name@),
{
    let n = list.len();
    let mut i: usize = 0;
    while i < n
        invariant
            n == list@.len(),
            i <= n,
            forall|j: int| 0 <= j < i ==> list@[j]@ != name@,
        decreases n - i,
    {
        if list[i].eq(name) {
            return true;
        }
        i += 1;
    }
    false
}

/// The line a sudo listing shows for a user who may not run sudo: the
/// phrase the admin check scans the listing for.
pub fn sudo_refusal_phrase(name: &str) -> (r: String)
    ensures
        r@ == "User "@ + name@ + " is not allowed to run sudo"@,
{
    let mut phrase = "User ".to_owned();
    phrase.append(name);
    phrase.append(" is not allowed to run sudo");
    phrase
}

} // verus!
