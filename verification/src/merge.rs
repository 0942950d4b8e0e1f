//! Merging ambient scope state into a captured event, purely additively:
//! scope breadcrumbs are appended, a scope user fills an absent event user
//! only, and scope tag and extra entries are inserted with the scope's
//! value overwriting an event value under the same key.

use vstd::prelude::*;
use crate::kvmap::merge_pairs;
use crate::model::{Event, Scope};

verus! {

/// Merges `scope` into `event` in place.
///
/// The event's user always wins over the scope's user; everything else is
/// additive. The platform and the exceptions are untouched.
pub fn merge_scope(event: &mut Event, scope: &Scope)
    requires
        old(event).wf(),
    ensures
        final(event).wf(),
        final(event)@.breadcrumbs == old(event)@.breadcrumbs + scope@.breadcrumbs,
        final(event)@.user == (if old(event)@.user is Some {
            old(event)@.user
        } else {
            scope@.user
        }),
        final(event)@.tags == old(event)@.tags.union_prefer_right(
            match scope@.tags {
                Some(m) => m,
                None => Map::<Seq<char>, Seq<char>>::empty(),
            },
        ),
        final(event)@.extra == old(event)@.extra.union_prefer_right(
            match scope@.extra {
                Some(m) => m,
                None => Map::<Seq<char>, Seq<char>>::empty(),
            },
        ),
        final(event)@.platform == old(event)@.platform,
        final(event)@.exceptions == old(event)@.exceptions,
{
    let n = scope.breadcrumbs.len();
    let ghost base = old(event).breadcrumbs@.len() as int;
    let mut i: usize = 0;
    while i < n
        invariant
            n == scope.breadcrumbs@.len(),
            base == old(event).breadcrumbs@.len(),
            0 <= i <= n,
            event.breadcrumbs@.len() == base + i,
            forall|j: int| 0 <= j < base
                ==> (#[trigger] event.breadcrumbs@[j])@ == old(event).breadcrumbs@[j]@,
            forall|j: int| 0 <= j < i
                ==> (#[trigger] event.breadcrumbs@[base + j])@ == scope.breadcrumbs@[j]@,
            event.platform == old(event).platform,
            event.user == old(event).user,
            event.tags == old(event).tags,
            event.extra == old(event).extra,
            event.exceptions == old(event).exceptions,
            old(event).wf(),
        decreases n - i,
    {
        event.breadcrumbs.push(scope.breadcrumbs[i].clone());
        i += 1;
    }
    proof {
        assert(event@.breadcrumbs.len() == base + n);
        assert((old(event)@.breadcrumbs + scope@.breadcrumbs).len() == base + n);
        assert forall|j: int| 0 <= j < base + n
            implies event@.breadcrumbs[j]
                == (old(event)@.breadcrumbs + scope@.breadcrumbs)[j] by {
            assert(event@.breadcrumbs[j] == event.breadcrumbs@[j]@);
            if j < base {
                assert(event.breadcrumbs@[j]@ == old(event).breadcrumbs@[j]@);
            } else {
                assert(event.breadcrumbs@[base + (j - base)]@ == scope.breadcrumbs@[j - base]@);
            }
        }
        assert(event@.breadcrumbs =~= old(event)@.breadcrumbs + scope@.breadcrumbs);
    }
    if event.user.is_none() {
        match &scope.user {
            Some(u) => {
                event.user = Some(u.clone());
            },
            None => {},
        }
    }
    match &scope.tags {
        Some(pairs) => {
            merge_pairs(&mut event.tags, pairs);
        },
        None => {
            proof {
                assert(event@.tags.union_prefer_right(Map::<Seq<char>, Seq<char>>::empty())
                    =~= event@.tags);
            }
        },
    }
    match &scope.extra {
        Some(pairs) => {
            merge_pairs(&mut event.extra, pairs);
        },
        None => {
            proof {
                assert(event@.extra.union_prefer_right(Map::<Seq<char>, Seq<char>>::empty())
                    =~= event@.extra);
            }
        },
    }
}

} // verus!
