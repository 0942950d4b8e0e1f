//! Configuration settings read during event preparation.

use vstd::prelude::*;

verus! {

/// Clones a vector of owned strings.
pub fn clone_string_vec(v: &Vec<String>) -> (r: Vec<String>)
    ensures
        r.deep_view() == v.deep_view(),
{
    let n = v.len();
    let mut r: Vec<String> = Vec::new();
    let mut i: usize = 0;
    while i < n
        invariant
            n == v@.len(),
            0 <= i <= n,
            r@.len() == i,
            forall|j: int| 0 <= j < i ==> (#[trigger] r@[j])@ == v@[j]@,
        decreases n - i,
    {
        r.push(v[i].clone());
        i += 1;
    }
    proof {
        assert(r.deep_view() =~= v.deep_view());
    }
    r
}

/// Configuration settings for the client, read-only during preparation.
#[derive(Debug)]
pub struct ClientOptions {
    /// Module prefixes that are always considered in-app.
    pub in_app_include: Vec<String>,
    /// Module prefixes that are never in-app.
    pub in_app_exclude: Vec<String>,
    /// Border frames which indicate a border from a backtrace to useless
    /// internals, in addition to the built-in markers.
    pub extra_border_frames: Vec<String>,
    /// Maximum number of breadcrumbs (0 to disable the feature); enforced
    /// by the collaborator that populates the scope, not here.
    pub max_breadcrumbs: usize,
    /// Automatically trim backtraces of junk before sending.
    pub trim_backtraces: bool,
}

/// The mathematical content of a `ClientOptions` value.
#[verifier::ext_equal]
pub ghost struct ClientOptionsView {
    pub in_app_include: Seq<Seq<char>>,
    pub in_app_exclude: Seq<Seq<char>>,
    pub extra_border_frames: Seq<Seq<char>>,
    pub max_breadcrumbs: usize,
    pub trim_backtraces: bool,
}

impl View for ClientOptions {
    type V = ClientOptionsView;

    open spec fn view(&self) -> ClientOptionsView {
        ClientOptionsView {
            in_app_include: self.in_app_include.deep_view(),
            in_app_exclude: self.in_app_exclude.deep_view(),
            extra_border_frames: self.extra_border_frames.deep_view(),
            max_breadcrumbs: self.max_breadcrumbs,
            trim_backtraces: self.trim_backtraces,
        }
    }
}

impl Clone for ClientOptions {
    fn clone(&self) -> (r: Self)
        ensures
            r@ == self@,
    {
        let r = ClientOptions {
            in_app_include: clone_string_vec(&self.in_app_include),
            in_app_exclude: clone_string_vec(&self.in_app_exclude),
            extra_border_frames: clone_string_vec(&self.extra_border_frames),
            max_breadcrumbs: self.max_breadcrumbs,
            trim_backtraces: self.trim_backtraces,
        };
        proof {
            assert(r@ =~= self@);
        }
        r
    }
}

impl Default for ClientOptions {
    /// Empty include, exclude and extra-border lists, up to 100 breadcrumbs,
    /// and backtrace trimming switched on.
    fn default() -> (r: ClientOptions)
        ensures
            r@.in_app_include =~= Seq::<Seq<char>>::empty(),
            r@.in_app_exclude =~= Seq::<Seq<char>>::empty(),
            r@.extra_border_frames =~= Seq::<Seq<char>>::empty(),
            r@.max_breadcrumbs == 100,
            r@.trim_backtraces,
    {
        ClientOptions {
            in_app_include: Vec::new(),
            in_app_exclude: Vec::new(),
            extra_border_frames: Vec::new(),
            max_breadcrumbs: 100,
            trim_backtraces: true,
        }
    }
}

} // verus!
