//! Frame classification: deciding, per frame, whether it belongs to
//! application code, and inferring a missing package label.
//!
//! Per named frame, precedence runs: an explicit flag is kept; else an
//! exclude-prefix match sets the flag to false; else an include-prefix match
//! sets it to true; else a well-known system-module prefix sets it to false;
//! else the flag stays unset. When no frame of the whole stacktrace came out
//! positively in-app, a final pass marks every still-unset frame as in-app,
//! so that a trace never hides as all library noise.

use vstd::prelude::*;
use crate::model::{clone_opt_string, frames_view, Frame, FrameView, Stacktrace};
use crate::options::{ClientOptions, ClientOptionsView};
use crate::tables::{
    builtin_sys_module_prefixes, matches_any_prefix, matches_sys_module, name_matches_any_prefix,
};
use crate::text::{extract_package, inferred_package};

verus! {

/// The in-app flag after the precedence rules ran on one named frame.
pub open spec fn classified_in_app(
    cur: Option<bool>,
    name: Seq<char>,
    opts: ClientOptionsView,
) -> Option<bool> {
    if cur is Some {
        cur
    } else if matches_any_prefix(name, opts.in_app_exclude) {
        Some(false)
    } else if matches_any_prefix(name, opts.in_app_include) {
        Some(true)
    } else if matches_any_prefix(name, builtin_sys_module_prefixes()) {
        Some(false)
    } else {
        None
    }
}

/// One frame after the per-frame pass: a frame without a function name is
/// untouched; otherwise a missing package label is inferred from the
/// function name and the in-app precedence rules run.
pub open spec fn classify_frame(f: FrameView, opts: ClientOptionsView) -> FrameView {
    match f.function {
        None => f,
        Some(name) => FrameView {
            function: f.function,
            package: if f.package is None {
                inferred_package(name)
            } else {
                f.package
            },
            in_app: classified_in_app(f.in_app, name, opts),
        },
    }
}

/// The frame counts as positively application code: it has a function name
/// and leaves the per-frame pass with an in-app flag of `true`.
pub open spec fn frame_positive(f: FrameView, opts: ClientOptionsView) -> bool {
    f.function is Some && classify_frame(f, opts).in_app == Some(true)
}

/// Some frame of the stacktrace is positively application code.
pub open spec fn any_positive(frames: Seq<FrameView>, opts: ClientOptionsView) -> bool {
    exists|i: int| 0 <= i < frames.len() && frame_positive(#[trigger] frames[i], opts)
}

/// The final fallback: a frame whose flag is still unset becomes in-app.
pub open spec fn fallback_frame(f: FrameView) -> FrameView {
    if f.in_app is None {
        FrameView { function: f.function, package: f.package, in_app: Some(true) }
    } else {
        f
    }
}

/// A whole stacktrace after classification: the per-frame pass everywhere
/// and then, when no frame was positively application code, the fallback
/// pass over every frame.
pub open spec fn classified_frames(frames: Seq<FrameView>, opts: ClientOptionsView) -> Seq<FrameView> {
    let pass = frames.map_values(|f: FrameView| classify_frame(f, opts));
    if any_positive(frames, opts) {
        pass
    } else {
        pass.map_values(|f: FrameView| fallback_frame(f))
    }
}

/// Exclude beats include: a frame without an explicit flag whose function
/// name matches an exclude prefix is classified as not in-app, whether or
/// not an include prefix also matches.
pub proof fn lemma_exclude_precedence(f: FrameView, opts: ClientOptionsView)
    requires
        f.in_app is None,
        f.function matches Some(name) && matches_any_prefix(name, opts.in_app_exclude),
    ensures
        classify_frame(f, opts).in_app == Some(false),
{
}

/// Fallback totality: when no frame carries an explicit flag and no
/// function name matches an exclude, include or system-module prefix,
/// classification leaves every frame with in-app = `true`.
pub proof fn lemma_fallback_totality(frames: Seq<FrameView>, opts: ClientOptionsView)
    requires
        forall|i: int| 0 <= i < frames.len() ==> (#[trigger] frames[i]).in_app is None,
        forall|i: int| 0 <= i < frames.len() ==> ((#[trigger] frames[i]).function matches Some(name)
            ==> !matches_any_prefix(name, opts.in_app_exclude)
                && !matches_any_prefix(name, opts.in_app_include)
                && !matches_any_prefix(name, builtin_sys_module_prefixes())),
    ensures
        classified_frames(frames, opts).len() == frames.len(),
        forall|i: int| 0 <= i < frames.len()
            ==> (#[trigger] classified_frames(frames, opts)[i]).in_app == Some(true),
{
    assert forall|i: int| 0 <= i < frames.len()
        implies !frame_positive(#[trigger] frames[i], opts) by {
        match frames[i].function {
            None => {},
            Some(name) => {
                assert(classify_frame(frames[i], opts).in_app is None);
            },
        }
    }
    assert(!any_positive(frames, opts));
    assert forall|i: int| 0 <= i < frames.len()
        implies (#[trigger] classified_frames(frames, opts)[i]).in_app == Some(true) by {
        assert(classified_frames(frames, opts)[i] == fallback_frame(classify_frame(frames[i], opts)));
        match frames[i].function {
            None => {},
            Some(name) => {
                assert(classify_frame(frames[i], opts).in_app is None);
            },
        }
    }
}

/// The per-frame pass is idempotent: running it on its own output changes
/// nothing.
pub proof fn lemma_classify_frame_idempotent(f: FrameView, opts: ClientOptionsView)
    ensures
        classify_frame(classify_frame(f, opts), opts) == classify_frame(f, opts),
{
    match f.function {
        None => {},
        Some(name) => {
            let c = classify_frame(f, opts);
            assert(c.function == Some(name));
            if c.package is None {
                assert(f.package is None && inferred_package(name) is None);
            }
        },
    }
}

/// A frame that left the whole classification — the per-frame pass followed
/// by the fallback — is a fixed point of the per-frame pass, and its flag
/// is set.
pub proof fn lemma_classified_frame_stable(f: FrameView, opts: ClientOptionsView)
    ensures
        classify_frame(fallback_frame(classify_frame(f, opts)), opts)
            == fallback_frame(classify_frame(f, opts)),
        fallback_frame(classify_frame(f, opts)).in_app is Some,
{
    let p = classify_frame(f, opts);
    let g = fallback_frame(p);
    match f.function {
        None => {},
        Some(name) => {
            assert(g.function == Some(name));
            if g.package is None {
                assert(f.package is None && inferred_package(name) is None);
            }
        },
    }
}

/// Idempotence of classification: classifying an already-classified
/// stacktrace is a no-op.
pub proof fn lemma_classify_idempotent(frames: Seq<FrameView>, opts: ClientOptionsView)
    ensures
        classified_frames(classified_frames(frames, opts), opts)
            == classified_frames(frames, opts),
{
    let c = classified_frames(frames, opts);
    if any_positive(frames, opts) {
        let w = choose|i: int| 0 <= i < frames.len()
            && frame_positive(#[trigger] frames[i], opts);
        assert(c[w] == classify_frame(frames[w], opts));
        lemma_classify_frame_idempotent(frames[w], opts);
        assert(frame_positive(c[w], opts));
        assert(any_positive(c, opts));
        assert forall|j: int| 0 <= j < c.len()
            implies classify_frame(#[trigger] c[j], opts) == c[j] by {
            assert(c[j] == classify_frame(frames[j], opts));
            lemma_classify_frame_idempotent(frames[j], opts);
        }
        assert(classified_frames(c, opts) =~= c);
    } else {
        assert forall|j: int| 0 <= j < c.len()
            implies classify_frame(#[trigger] c[j], opts) == c[j] && c[j].in_app is Some by {
            assert(c[j] == fallback_frame(classify_frame(frames[j], opts)));
            lemma_classified_frame_stable(frames[j], opts);
        }
        if any_positive(c, opts) {
            assert(classified_frames(c, opts) =~= c);
        } else {
            assert forall|j: int| 0 <= j < c.len()
                implies fallback_frame(classify_frame(#[trigger] c[j], opts)) == c[j] by {
                assert(classify_frame(c[j], opts) == c[j]);
                assert(c[j].in_app is Some);
            }
            assert(classified_frames(c, opts) =~= c);
        }
    }
}

/// The per-frame pass on one frame.
fn classify_one(f: &Frame, options: &ClientOptions) -> (r: Frame)
    ensures
        r@ == classify_frame(f@, options@),
{
    match &f.function {
        None => f.clone(),
        Some(name) => {
            let package: Option<String> = match &f.package {
                Some(p) => Some(p.clone()),
                None => extract_package(name.as_str()),
            };
            let in_app: Option<bool> = match f.in_app {
                Some(b) => Some(b),
                None => {
                    if name_matches_any_prefix(name.as_str(), &options.in_app_exclude) {
                        Some(false)
                    } else if name_matches_any_prefix(name.as_str(), &options.in_app_include) {
                        Some(true)
                    } else if matches_sys_module(name.as_str()) {
                        Some(false)
                    } else {
                        None
                    }
                },
            };
            Frame { function: Some(name.clone()), package, in_app }
        },
    }
}

/// The fallback pass on one frame.
fn fallback_one(f: &Frame) -> (r: Frame)
    ensures
        r@ == fallback_frame(f@),
{
    match f.in_app {
        None => Frame {
            function: clone_opt_string(&f.function),
            package: clone_opt_string(&f.package),
            in_app: Some(true),
        },
        Some(_) => f.clone(),
    }
}

/// Classifies every frame of the stacktrace: packages are inferred where
/// missing, the in-app precedence rules run per named frame, and when no
/// frame came out positively in-app, every still-unset flag becomes `true`.
pub fn classify_stacktrace(st: &mut Stacktrace, options: &ClientOptions)
    ensures
        final(st)@ == classified_frames(old(st)@, options@),
{
    let n = st.frames.len();
    let mut pass: Vec<Frame> = Vec::new();
    let mut any_in_app = false;
    let mut i: usize = 0;
    while i < n
        invariant
            st@ == old(st)@,
            n == st.frames@.len(),
            0 <= i <= n,
            pass@.len() == i,
            forall|j: int| 0 <= j < i
                ==> (#[trigger] pass@[j])@ == classify_frame(old(st)@[j], options@),
            any_in_app == exists|j: int| 0 <= j < i
                && frame_positive(#[trigger] old(st)@[j], options@),
        decreases n - i,
    {
        let nf = classify_one(&st.frames[i], options);
        proof {
            assert(st@[i as int] == st.frames@[i as int]@);
        }
        let positive = match (&nf.function, &nf.in_app) {
            (Some(_), Some(true)) => true,
            _ => false,
        };
        proof {
            assert(nf@ == classify_frame(old(st)@[i as int], options@));
            assert(positive == frame_positive(old(st)@[i as int], options@));
        }
        if positive {
            any_in_app = true;
        }
        pass.push(nf);
        proof {
            if any_in_app {
                if positive {
                    assert(0 <= i < i + 1 && frame_positive(old(st)@[i as int], options@));
                } else {
                    let w = choose|j: int| 0 <= j < i
                        && frame_positive(#[trigger] old(st)@[j], options@);
                    assert(0 <= w < i + 1 && frame_positive(old(st)@[w], options@));
                }
                assert(exists|j: int| 0 <= j < i + 1
                    && frame_positive(#[trigger] old(st)@[j], options@));
            } else {
                assert forall|j: int| 0 <= j < i + 1
                    implies !frame_positive(#[trigger] old(st)@[j], options@) by {
                    if j < i {
                        assert(!(exists|k: int| 0 <= k < i
                            && frame_positive(#[trigger] old(st)@[k], options@)));
                    }
                }
            }
        }
        i += 1;
    }
    proof {
        assert(old(st)@.len() == n);
        assert(any_in_app == any_positive(old(st)@, options@));
    }
    if any_in_app {
        st.frames = pass;
        proof {
            assert forall|j: int| 0 <= j < n
                implies st@[j] == classified_frames(old(st)@, options@)[j] by {
                assert(st.frames@[j]@ == classify_frame(old(st)@[j], options@));
            }
            assert(st@ =~= classified_frames(old(st)@, options@));
        }
    } else {
        let m = pass.len();
        let mut fixed: Vec<Frame> = Vec::new();
        let mut k: usize = 0;
        while k < m
            invariant
                m == pass@.len(),
                m == n,
                n == old(st)@.len(),
                forall|j: int| 0 <= j < m
                    ==> (#[trigger] pass@[j])@ == classify_frame(old(st)@[j], options@),
                0 <= k <= m,
                fixed@.len() == k,
                forall|j: int| 0 <= j < k
                    ==> (#[trigger] fixed@[j])@ == fallback_frame(pass@[j]@),
            decreases m - k,
        {
            let g = fallback_one(&pass[k]);
            fixed.push(g);
            k += 1;
        }
        st.frames = fixed;
        proof {
            assert(!any_positive(old(st)@, options@));
            assert forall|j: int| 0 <= j < n
                implies st@[j] == classified_frames(old(st)@, options@)[j] by {
                assert(st.frames@[j]@ == fallback_frame(pass@[j]@));
                assert(pass@[j]@ == classify_frame(old(st)@[j], options@));
            }
            assert(st@ =~= classified_frames(old(st)@, options@));
        }
    }
}

} // verus!
