//! Event preparation: the one entry point the capture path calls before an
//! event is handed to the transport.
//!
//! In order: the scope, when present, is merged into the event; a platform
//! label standing for "never set" is corrected to the fixed native label;
//! and every exception's stacktrace is trimmed (when trimming is enabled)
//! and then classified. No other event field is touched.

use vstd::prelude::*;
use crate::classify::{classified_frames, classify_stacktrace};
use crate::merge::merge_scope;
use crate::model::{Event, EventView, Exception, FrameView, Scope, ScopeView};
use crate::options::{ClientOptions, ClientOptionsView};
use crate::text::str_eq;
use crate::trim::{trim_stacktrace, trimmed_frames};

verus! {

/// The event after scope merging: breadcrumbs appended, an absent user
/// filled from the scope, scope tag and extra entries inserted with the
/// scope's value winning under an equal key. Without a scope, the event
/// itself.
pub open spec fn merged_event(ev: EventView, scope: Option<ScopeView>) -> EventView {
    match scope {
        None => ev,
        Some(s) => EventView {
            platform: ev.platform,
            exceptions: ev.exceptions,
            breadcrumbs: ev.breadcrumbs + s.breadcrumbs,
            user: if ev.user is Some {
                ev.user
            } else {
                s.user
            },
            tags: ev.tags.union_prefer_right(
                match s.tags {
                    Some(m) => m,
                    None => Map::<Seq<char>, Seq<char>>::empty(),
                },
            ),
            extra: ev.extra.union_prefer_right(
                match s.extra {
                    Some(m) => m,
                    None => Map::<Seq<char>, Seq<char>>::empty(),
                },
            ),
        },
    }
}

/// The platform label after correction: the label of an event whose
/// platform was never set becomes the fixed native label; every other
/// label is left untouched.
pub open spec fn corrected_platform(p: Seq<char>) -> Seq<char> {
    if p == "other"@ {
        "native"@
    } else {
        p
    }
}

/// One stacktrace after preparation: trimmed when trimming is enabled,
/// then classified.
pub open spec fn prepared_frames(frames: Seq<FrameView>, opts: ClientOptionsView) -> Seq<FrameView> {
    if opts.trim_backtraces {
        classified_frames(trimmed_frames(frames, opts), opts)
    } else {
        classified_frames(frames, opts)
    }
}

/// One exception after preparation; an exception without a stacktrace is
/// untouched.
pub open spec fn prepared_exception(
    e: Option<Seq<FrameView>>,
    opts: ClientOptionsView,
) -> Option<Seq<FrameView>> {
    match e {
        Some(frames) => Some(prepared_frames(frames, opts)),
        None => None,
    }
}

/// The whole event after preparation.
pub open spec fn prepared_event(
    ev: EventView,
    scope: Option<ScopeView>,
    opts: ClientOptionsView,
) -> EventView {
    let m = merged_event(ev, scope);
    EventView {
        platform: corrected_platform(m.platform),
        exceptions: m.exceptions.map_values(
            |e: Option<Seq<FrameView>>| prepared_exception(e, opts),
        ),
        breadcrumbs: m.breadcrumbs,
        user: m.user,
        tags: m.tags,
        extra: m.extra,
    }
}

/// The view of an optional scope reference.
pub open spec fn scope_view(scope: Option<&Scope>) -> Option<ScopeView> {
    match scope {
        Some(s) => Some(s@),
        None => None,
    }
}

/// Prepares `event` in place for delivery: merges the scope when one is
/// present, corrects a never-set platform label, and trims and classifies
/// every exception's stacktrace. `scope` and `options` are read-only.
pub fn prepare_event(event: &mut Event, scope: Option<&Scope>, options: &ClientOptions)
    requires
        old(event).wf(),
    ensures
        final(event).wf(),
        final(event)@ == prepared_event(old(event)@, scope_view(scope), options@),
{
    match scope {
        Some(s) => merge_scope(event, s),
        None => {},
    }
    let ghost mv = merged_event(old(event)@, scope_view(scope));
    proof {
        assert(event@ =~= mv);
    }
    if str_eq(event.platform.as_str(), "other") {
        event.platform = "native".to_owned();
    }
    proof {
        assert(event@.platform == corrected_platform(mv.platform));
    }
    let n = event.exceptions.len();
    let mut out: Vec<Exception> = Vec::new();
    let mut k: usize = 0;
    while k < n
        invariant
            n == event.exceptions@.len(),
            mv == merged_event(old(event)@, scope_view(scope)),
            event@.exceptions == mv.exceptions,
            event@.platform == corrected_platform(mv.platform),
            event@.breadcrumbs == mv.breadcrumbs,
            event@.user == mv.user,
            event@.tags == mv.tags,
            event@.extra == mv.extra,
            event.wf(),
            0 <= k <= n,
            out@.len() == k,
            forall|j: int| 0 <= j < k
                ==> (#[trigger] out@[j])@ == prepared_exception(mv.exceptions[j], options@),
        decreases n - k,
    {
        let new_exc = match &event.exceptions[k].stacktrace {
            None => Exception { stacktrace: None },
            Some(st_ref) => {
                let mut st = st_ref.clone();
                if options.trim_backtraces {
                    trim_stacktrace(&mut st, options);
                }
                classify_stacktrace(&mut st, options);
                Exception { stacktrace: Some(st) }
            },
        };
        proof {
            assert(event@.exceptions[k as int] == event.exceptions@[k as int]@);
            assert(new_exc@ == prepared_exception(mv.exceptions[k as int], options@));
        }
        out.push(new_exc);
        k += 1;
    }
    event.exceptions = out;
    proof {
        assert forall|j: int| 0 <= j < n
            implies event@.exceptions[j]
                == prepared_event(old(event)@, scope_view(scope), options@).exceptions[j] by {
            assert(event.exceptions@[j]@ == prepared_exception(mv.exceptions[j], options@));
        }
        assert(event@ =~= prepared_event(old(event)@, scope_view(scope), options@));
    }
}

} // verus!
