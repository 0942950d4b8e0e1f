//! The data model of a captured event: frames, stacktraces, exceptions,
//! breadcrumbs, the user, the event itself, and the ambient scope.
//!
//! Each type carries a view giving its mathematical content; the tag and
//! extra mappings of an event are viewed as finite maps.

use vstd::prelude::*;
use crate::kvmap::{keys_unique, map_of, pairs_view, unique_keys};
use crate::text::opt_str_view;

verus! {

/// Clones an optional owned string.
pub fn clone_opt_string(o: &Option<String>) -> (r: Option<String>)
    ensures
        opt_str_view(r) == opt_str_view(*o),
{
    match o {
        Some(s) => Some(s.clone()),
        None => None,
    }
}

/// A recorded prior action, kept for post-hoc diagnostic context.
#[derive(Debug, PartialEq)]
pub struct Breadcrumb {
    pub message: String,
}

impl View for Breadcrumb {
    type V = Seq<char>;

    open spec fn view(&self) -> Seq<char> {
        self.message@
    }
}

impl Clone for Breadcrumb {
    fn clone(&self) -> (r: Self)
        ensures
            r@ == self@,
    {
        Breadcrumb { message: self.message.clone() }
    }
}

/// The user an event is attributed to.
#[derive(Debug, PartialEq)]
pub struct User {
    pub id: String,
}

impl View for User {
    type V = Seq<char>;

    open spec fn view(&self) -> Seq<char> {
        self.id@
    }
}

impl Clone for User {
    fn clone(&self) -> (r: Self)
        ensures
            r@ == self@,
    {
        User { id: self.id.clone() }
    }
}

/// One call-stack activation of a stacktrace.
#[derive(Debug, PartialEq)]
pub struct Frame {
    /// Fully qualified function name, when known.
    pub function: Option<String>,
    /// Package or module label, when known.
    pub package: Option<String>,
    /// Application-code flag: `None` while not yet decided.
    pub in_app: Option<bool>,
}

/// The mathematical content of a frame.
#[verifier::ext_equal]
pub ghost struct FrameView {
    pub function: Option<Seq<char>>,
    pub package: Option<Seq<char>>,
    pub in_app: Option<bool>,
}

impl View for Frame {
    type V = FrameView;

    open spec fn view(&self) -> FrameView {
        FrameView {
            function: opt_str_view(self.function),
            package: opt_str_view(self.package),
            in_app: self.in_app,
        }
    }
}

impl Clone for Frame {
    fn clone(&self) -> (r: Self)
        ensures
            r@ == self@,
    {
        Frame {
            function: clone_opt_string(&self.function),
            package: clone_opt_string(&self.package),
            in_app: self.in_app,
        }
    }
}

/// The views of a sequence of frames.
pub open spec fn frames_view(frames: Seq<Frame>) -> Seq<FrameView> {
    frames.map_values(|f: Frame| f@)
}

/// An ordered sequence of frames; trimming walks it from the end backward.
#[derive(Debug, PartialEq)]
pub struct Stacktrace {
    pub frames: Vec<Frame>,
}

impl View for Stacktrace {
    type V = Seq<FrameView>;

    open spec fn view(&self) -> Seq<FrameView> {
        frames_view(self.frames@)
    }
}

impl Clone for Stacktrace {
    fn clone(&self) -> (r: Self)
        ensures
            r@ == self@,
    {
        let n = self.frames.len();
        let mut frames: Vec<Frame> = Vec::new();
        let mut i: usize = 0;
        while i < n
            invariant
                n == self.frames@.len(),
                0 <= i <= n,
                frames@.len() == i,
                forall|j: int| 0 <= j < i ==> (#[trigger] frames@[j])@ == self.frames@[j]@,
            decreases n - i,
        {
            frames.push(self.frames[i].clone());
            i += 1;
        }
        proof {
            assert(frames_view(frames@) =~= frames_view(self.frames@));
        }
        Stacktrace { frames }
    }
}

/// One exception of an event, with its stacktrace when one was captured.
#[derive(Debug, PartialEq)]
pub struct Exception {
    pub stacktrace: Option<Stacktrace>,
}

impl View for Exception {
    type V = Option<Seq<FrameView>>;

    open spec fn view(&self) -> Option<Seq<FrameView>> {
        match self.stacktrace {
            Some(st) => Some(st@),
            None => None,
        }
    }
}

/// A captured error event, mutated only during preparation.
#[derive(Debug, PartialEq)]
pub struct Event {
    /// Platform label; `"other"` stands for a platform never set by the
    /// caller and is corrected during preparation.
    pub platform: String,
    pub exceptions: Vec<Exception>,
    pub breadcrumbs: Vec<Breadcrumb>,
    pub user: Option<User>,
    /// Tag mapping, as key/value pairs with pairwise distinct keys.
    pub tags: Vec<(String, String)>,
    /// Extra data mapping, as key/value pairs with pairwise distinct keys.
    pub extra: Vec<(String, String)>,
}

/// The mathematical content of an event.
#[verifier::ext_equal]
pub ghost struct EventView {
    pub platform: Seq<char>,
    pub exceptions: Seq<Option<Seq<FrameView>>>,
    pub breadcrumbs: Seq<Seq<char>>,
    pub user: Option<Seq<char>>,
    pub tags: Map<Seq<char>, Seq<char>>,
    pub extra: Map<Seq<char>, Seq<char>>,
}

impl View for Event {
    type V = EventView;

    open spec fn view(&self) -> EventView {
        EventView {
            platform: self.platform@,
            exceptions: self.exceptions@.map_values(|e: Exception| e@),
            breadcrumbs: self.breadcrumbs@.map_values(|b: Breadcrumb| b@),
            user: match self.user {
                Some(u) => Some(u@),
                None => None,
            },
            tags: map_of(pairs_view(self.tags@)),
            extra: map_of(pairs_view(self.extra@)),
        }
    }
}

impl Event {
    /// Well-formedness: the tag and extra pair lists hold each key once.
    pub open spec fn wf(&self) -> bool {
        unique_keys(pairs_view(self.tags@)) && unique_keys(pairs_view(self.extra@))
    }

    /// Exact check of `wf`.
    pub fn check_wf(&self) -> (r: bool)
        ensures
            r == self.wf(),
    {
        keys_unique(&self.tags) && keys_unique(&self.extra)
    }
}

/// Ambient contextual state accumulated before the event existed; read-only
/// during preparation.
#[derive(Debug, PartialEq)]
pub struct Scope {
    pub user: Option<User>,
    pub extra: Option<Vec<(String, String)>>,
    pub tags: Option<Vec<(String, String)>>,
    pub breadcrumbs: Vec<Breadcrumb>,
}

/// The mathematical content of a scope; an absent mapping stays absent.
#[verifier::ext_equal]
pub ghost struct ScopeView {
    pub user: Option<Seq<char>>,
    pub extra: Option<Map<Seq<char>, Seq<char>>>,
    pub tags: Option<Map<Seq<char>, Seq<char>>>,
    pub breadcrumbs: Seq<Seq<char>>,
}

impl View for Scope {
    type V = ScopeView;

    open spec fn view(&self) -> ScopeView {
        ScopeView {
            user: match self.user {
                Some(u) => Some(u@),
                None => None,
            },
            extra: match self.extra {
                Some(pairs) => Some(map_of(pairs_view(pairs@))),
                None => None,
            },
            tags: match self.tags {
                Some(pairs) => Some(map_of(pairs_view(pairs@))),
                None => None,
            },
            breadcrumbs: self.breadcrumbs@.map_values(|b: Breadcrumb| b@),
        }
    }
}

} // verus!
