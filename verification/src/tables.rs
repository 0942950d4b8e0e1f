//! Fixed lookup tables and name-matching helpers used when trimming and
//! classifying backtraces: the built-in border-frame markers, the well-known
//! system-module prefixes, and verified membership and prefix tests.

use vstd::prelude::*;
use crate::text::{str_eq, str_starts_with};

verus! {

/// Function names at which a backtrace crosses from the host program into
/// the reporting machinery (panic hooks, runtime entry points); when
/// trimming, such a frame and everything after it is dropped.
pub open spec fn builtin_border_frames() -> Seq<Seq<char>> {
    seq![
        "std::rt::lang_start"@,
        "std::panicking::begin_panic"@,
        "core::panicking::panic"@,
        "__rust_maybe_catch_panic"@,
    ]
}

/// Module prefixes of well-known system and runtime code; a function name
/// starting with one of them is never application code unless an explicit
/// flag or an include/exclude rule says otherwise.
pub open spec fn builtin_sys_module_prefixes() -> Seq<Seq<char>> {
    seq!["std::"@, "core::"@, "alloc::"@, "backtrace::"@]
}

/// Some prefix in `prefixes` is an initial segment of `name`.
pub open spec fn matches_any_prefix(name: Seq<char>, prefixes: Seq<Seq<char>>) -> bool {
    exists|i: int| 0 <= i < prefixes.len() && (#[trigger] prefixes[i]).is_prefix_of(name)
}

/// Tests `name` against every prefix of the list in order.
pub fn name_matches_any_prefix(name: &str, prefixes: &Vec<String>) -> (r: bool)
    ensures
        r == matches_any_prefix(name@, prefixes.deep_view()),
{
    let n = prefixes.len();
    let mut i: usize = 0;
    while i < n
        invariant
            n == prefixes@.len(),
            0 <= i <= n,
            forall|j: int| 0 <= j < i ==> !(#[trigger] prefixes.deep_view()[j]).is_prefix_of(name@),
        decreases n - i,
    {
        if str_starts_with(name, prefixes[i].as_str()) {
            proof {
                assert(prefixes.deep_view()[i as int].is_prefix_of(name@));
            }
            return true;
        }
        i += 1;
    }
    false
}

/// Tests `name` for exact membership in the list.
pub fn name_in_list(name: &str, names: &Vec<String>) -> (r: bool)
    ensures
        r == names.deep_view().contains(name@),
{
    let n = names.len();
    let mut i: usize = 0;
    while i < n
        invariant
            n == names@.len(),
            0 <= i <= n,
            forall|j: int| 0 <= j < i ==> (#[trigger] names.deep_view()[j]) != name@,
        decreases n - i,
    {
        if str_eq(name, names[i].as_str()) {
            proof {
                assert(names.deep_view()[i as int] == name@);
            }
            return true;
        }
        i += 1;
    }
    proof {
        assert(forall|j: int| 0 <= j < names.deep_view().len()
            ==> (#[trigger] names.deep_view()[j]) != name@);
    }
    false
}

/// Exact membership of `name` in the built-in border-frame marker table.
pub fn is_builtin_border(name: &str) -> (r: bool)
    ensures
        r == builtin_border_frames().contains(name@),
{
    if str_eq(name, "std::rt::lang_start") {
        proof {
            assert(builtin_border_frames()[0] == name@);
        }
        return true;
    }
    if str_eq(name, "std::panicking::begin_panic") {
        proof {
            assert(builtin_border_frames()[1] == name@);
        }
        return true;
    }
    if str_eq(name, "core::panicking::panic") {
        proof {
            assert(builtin_border_frames()[2] == name@);
        }
        return true;
    }
    if str_eq(name, "__rust_maybe_catch_panic") {
        proof {
            assert(builtin_border_frames()[3] == name@);
        }
        return true;
    }
    proof {
        assert forall|i: int| 0 <= i < builtin_border_frames().len()
            implies (#[trigger] builtin_border_frames()[i]) != name@ by {
            if 0 <= i < builtin_border_frames().len() {
                if i == 0 {
                    assert(builtin_border_frames()[0] == "std::rt::lang_start"@);
                } else if i == 1 {
                    assert(builtin_border_frames()[1] == "std::panicking::begin_panic"@);
                } else if i == 2 {
                    assert(builtin_border_frames()[2] == "core::panicking::panic"@);
                } else {
                    assert(builtin_border_frames()[3] == "__rust_maybe_catch_panic"@);
                }
            }
        }
    }
    false
}

/// Tests `name` against the well-known system-module prefixes.
pub fn matches_sys_module(name: &str) -> (r: bool)
    ensures
        r == matches_any_prefix(name@, builtin_sys_module_prefixes()),
{
    if str_starts_with(name, "std::") {
        proof {
            assert(builtin_sys_module_prefixes()[0].is_prefix_of(name@));
        }
        return true;
    }
    if str_starts_with(name, "core::") {
        proof {
            assert(builtin_sys_module_prefixes()[1].is_prefix_of(name@));
        }
        return true;
    }
    if str_starts_with(name, "alloc::") {
        proof {
            assert(builtin_sys_module_prefixes()[2].is_prefix_of(name@));
        }
        return true;
    }
    if str_starts_with(name, "backtrace::") {
        proof {
            assert(builtin_sys_module_prefixes()[3].is_prefix_of(name@));
        }
        return true;
    }
    proof {
        assert forall|i: int| 0 <= i < builtin_sys_module_prefixes().len()
            implies !(#[trigger] builtin_sys_module_prefixes()[i]).is_prefix_of(name@) by {
            if 0 <= i < builtin_sys_module_prefixes().len() {
                if i == 0 {
                    assert(builtin_sys_module_prefixes()[0] == "std::"@);
                } else if i == 1 {
                    assert(builtin_sys_module_prefixes()[1] == "core::"@);
                } else if i == 2 {
                    assert(builtin_sys_module_prefixes()[2] == "alloc::"@);
                } else {
                    assert(builtin_sys_module_prefixes()[3] == "backtrace::"@);
                }
            }
        }
    }
    false
}

} // verus!
