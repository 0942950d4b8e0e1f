//! Verified helpers over strings: equality, prefix tests, and extraction of
//! the leading module component of a function name.

use vstd::prelude::*;
use vstd::string::StrSliceExecFns;

verus! {

/// Character-wise equality of two string slices.
pub fn str_eq(a: &str, b: &str) -> (r: bool)
    ensures
        r == (a@ == b@),
{
    let alen = a.unicode_len();
    let blen = b.unicode_len();
    if alen != blen {
        return false;
    }
    let mut i: usize = 0;
    while i < alen
        invariant
            alen == a@.len(),
            alen == b@.len(),
            0 <= i <= alen,
            forall|j: int| 0 <= j < i ==> a@[j] == b@[j],
        decreases alen - i,
    {
        if a.get_char(i) != b.get_char(i) {
            return false;
        }
        i += 1;
    }
    proof {
        assert(a@ =~= b@);
    }
    true
}

/// True when `prefix` is an initial segment of `s`.
pub fn str_starts_with(s: &str, prefix: &str) -> (r: bool)
    ensures
        r == prefix@.is_prefix_of(s@),
{
    let slen = s.unicode_len();
    let plen = prefix.unicode_len();
    if plen > slen {
        return false;
    }
    let mut i: usize = 0;
    while i < plen
        invariant
            slen == s@.len(),
            plen == prefix@.len(),
            plen <= slen,
            0 <= i <= plen,
            forall|j: int| 0 <= j < i ==> s@[j] == prefix@[j],
        decreases plen - i,
    {
        if s.get_char(i) != prefix.get_char(i) {
            proof {
                assert(s@.subrange(0, plen as int)[i as int] == s@[i as int]);
            }
            return false;
        }
        i += 1;
    }
    proof {
        assert(prefix@ =~= s@.subrange(0, plen as int));
    }
    true
}

/// The view of an optional owned string.
pub open spec fn opt_str_view(o: Option<String>) -> Option<Seq<char>> {
    match o {
        Some(s) => Some(s@),
        None => None,
    }
}

/// `i` marks the first scope separator of `name`: a nonempty run of
/// non-colon characters ends at `i`, where a `::` token begins.
pub open spec fn package_split_at(name: Seq<char>, i: int) -> bool {
    &&& 1 <= i
    &&& i + 1 < name.len()
    &&& name[i] == ':'
    &&& name[i + 1] == ':'
    &&& forall|j: int| 0 <= j < i ==> name[j] != ':'
}

/// The function name has the shape `<component>::<rest>` with a nonempty
/// leading component.
pub open spec fn has_package_prefix(name: Seq<char>) -> bool {
    exists|i: int| package_split_at(name, i)
}

/// The leading module component of a function name, up to and not
/// including its first `::`, when the name has one.
pub open spec fn inferred_package(name: Seq<char>) -> Option<Seq<char>> {
    if has_package_prefix(name) {
        Some(name.subrange(0, choose|i: int| package_split_at(name, i)))
    } else {
        None
    }
}

/// At most one index can mark the first scope separator.
pub proof fn lemma_package_split_unique(name: Seq<char>, i: int, j: int)
    requires
        package_split_at(name, i),
        package_split_at(name, j),
    ensures
        i == j,
{
    if i < j {
        assert(name[i] != ':');
        assert(false);
    }
    if j < i {
        assert(name[j] != ':');
        assert(false);
    }
}

/// Extracts the leading module component of a function name: the characters
/// before the first `::`, when at least one such character stands before it.
pub fn extract_package(name: &str) -> (r: Option<String>)
    ensures
        opt_str_view(r) == inferred_package(name@),
{
    let len = name.unicode_len();
    let mut i: usize = 0;
    while i < len
        invariant
            len == name@.len(),
            0 <= i <= len,
            forall|j: int| 0 <= j < i ==> name@[j] != ':',
        decreases len - i,
    {
        if name.get_char(i) == ':' {
            if i >= 1 && i + 1 < len && name.get_char(i + 1) == ':' {
                proof {
                    assert(package_split_at(name@, i as int));
                    let k = choose|k: int| package_split_at(name@, k);
                    lemma_package_split_unique(name@, i as int, k);
                }
                let p = name.substring_char(0, i);
                return Some(p.to_owned());
            } else {
                proof {
                    assert forall|k: int| !package_split_at(name@, k) by {
                        if package_split_at(name@, k) {
                            if k < i {
                                assert(name@[k] == ':');
                            } else if k > i {
                                assert(name@[i as int] != ':');
                            }
                            assert(k == i);
                            assert(false);
                        }
                    }
                }
                return None;
            }
        }
        i += 1;
    }
    proof {
        assert forall|k: int| !package_split_at(name@, k) by {
            if package_split_at(name@, k) {
                assert(name@[k] == ':');
                assert(false);
            }
        }
    }
    None
}

} // verus!

