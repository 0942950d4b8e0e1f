//! Backtrace trimming: removing the trailing run of frames that crosses
//! from the fault site into the reporting machinery.
//!
//! Scanning the frame sequence from its last element toward the first, the
//! first frame whose function name matches a border marker — the union of
//! the built-in markers and the configured extra ones — is dropped together
//! with every frame after it. When no frame matches, the stacktrace is left
//! unchanged.

use vstd::prelude::*;
use crate::model::{Frame, FrameView, Stacktrace};
use crate::options::{ClientOptions, ClientOptionsView};
use crate::tables::{builtin_border_frames, is_builtin_border, name_in_list};

verus! {

/// The frame carries a function name that is a border marker.
pub open spec fn is_border_frame(f: FrameView, opts: ClientOptionsView) -> bool {
    match f.function {
        Some(name) => builtin_border_frames().contains(name)
            || opts.extra_border_frames.contains(name),
        None => false,
    }
}

/// The index of the border frame nearest the end of the sequence, when one
/// exists.
pub open spec fn border_cut(frames: Seq<FrameView>, opts: ClientOptionsView) -> Option<int>
    decreases frames.len(),
{
    if frames.len() == 0 {
        None
    } else if is_border_frame(frames.last(), opts) {
        Some(frames.len() - 1)
    } else {
        border_cut(frames.drop_last(), opts)
    }
}

/// The frames kept after trimming: everything before the border frame
/// nearest the end, or the whole sequence when no frame is a border frame.
pub open spec fn trimmed_frames(frames: Seq<FrameView>, opts: ClientOptionsView) -> Seq<FrameView> {
    match border_cut(frames, opts) {
        Some(j) => frames.take(j),
        None => frames,
    }
}

/// The cut falls on the last border frame: a border frame followed by no
/// other border frame is where the scan from the end stops.
pub proof fn lemma_border_cut_at(frames: Seq<FrameView>, opts: ClientOptionsView, j: int)
    requires
        0 <= j < frames.len(),
        is_border_frame(frames[j], opts),
        forall|k: int| j < k < frames.len() ==> !is_border_frame(#[trigger] frames[k], opts),
    ensures
        border_cut(frames, opts) == Some(j),
    decreases frames.len(),
{
    if j == frames.len() - 1 {
        assert(frames.last() == frames[j]);
    } else {
        assert(!is_border_frame(frames.last(), opts));
        assert(frames.drop_last()[j] == frames[j]);
        assert(forall|k: int| j < k < frames.drop_last().len()
            ==> !is_border_frame(#[trigger] frames.drop_last()[k], opts));
        lemma_border_cut_at(frames.drop_last(), opts, j);
    }
}

/// With no border frame anywhere, the scan finds no cut.
pub proof fn lemma_border_cut_none(frames: Seq<FrameView>, opts: ClientOptionsView)
    requires
        forall|k: int| 0 <= k < frames.len() ==> !is_border_frame(#[trigger] frames[k], opts),
    ensures
        border_cut(frames, opts) is None,
    decreases frames.len(),
{
    if frames.len() > 0 {
        assert(frames.last() == frames[frames.len() - 1]);
        assert(forall|k: int| 0 <= k < frames.drop_last().len()
            ==> !is_border_frame(#[trigger] frames.drop_last()[k], opts));
        lemma_border_cut_none(frames.drop_last(), opts);
    }
}

/// Trimming truncates exactly at the last border frame: the frames before
/// it are kept in order, and it and every frame after it are discarded.
pub proof fn lemma_trim_cuts_at_last_border(frames: Seq<FrameView>, opts: ClientOptionsView, j: int)
    requires
        0 <= j < frames.len(),
        is_border_frame(frames[j], opts),
        forall|k: int| j < k < frames.len() ==> !is_border_frame(#[trigger] frames[k], opts),
    ensures
        trimmed_frames(frames, opts) == frames.take(j),
{
    lemma_border_cut_at(frames, opts, j);
}

/// When no frame matches a border marker, trimming is a no-op: the frame
/// sequence keeps its length and order.
pub proof fn lemma_trim_no_border_is_noop(frames: Seq<FrameView>, opts: ClientOptionsView)
    requires
        forall|k: int| 0 <= k < frames.len() ==> !is_border_frame(#[trigger] frames[k], opts),
    ensures
        trimmed_frames(frames, opts) == frames,
{
    lemma_border_cut_none(frames, opts);
}

/// Exact test of `is_border_frame` for one frame.
fn frame_is_border(f: &Frame, options: &ClientOptions) -> (r: bool)
    ensures
        r == is_border_frame(f@, options@),
{
    match &f.function {
        None => false,
        Some(name) => {
            if is_builtin_border(name.as_str()) {
                true
            } else {
                name_in_list(name.as_str(), &options.extra_border_frames)
            }
        },
    }
}

/// Finds the index of the border frame nearest the end, scanning backward.
fn find_border_cut(st: &Stacktrace, options: &ClientOptions) -> (r: Option<usize>)
    ensures
        match r {
            Some(j) => j < st.frames@.len() && border_cut(st@, options@) == Some(j as int),
            None => border_cut(st@, options@) is None,
        },
{
    let mut i: usize = st.frames.len();
    while i > 0
        invariant
            i <= st@.len(),
            st@.len() == st.frames@.len(),
            forall|k: int| i <= k < st@.len() ==> !is_border_frame(#[trigger] st@[k], options@),
        decreases i,
    {
        let idx = i - 1;
        if frame_is_border(&st.frames[idx], options) {
            proof {
                lemma_border_cut_at(st@, options@, idx as int);
            }
            return Some(idx);
        }
        i = idx;
    }
    proof {
        lemma_border_cut_none(st@, options@);
    }
    None
}

/// Trims the stacktrace at the border frame nearest its end: that frame and
/// every frame after it are removed; with no border frame, nothing changes.
pub fn trim_stacktrace(st: &mut Stacktrace, options: &ClientOptions)
    ensures
        final(st)@ == trimmed_frames(old(st)@, options@),
{
    match find_border_cut(st, options) {
        Some(j) => {
            st.frames.truncate(j);
            proof {
                assert(st.frames@ == old(st).frames@.subrange(0, j as int));
                assert(trimmed_frames(old(st)@, options@) == old(st)@.take(j as int));
                assert forall|k: int| 0 <= k < j implies st@[k] == old(st)@[k] by {
                    assert(st.frames@[k] == old(st).frames@[k]);
                }
                assert(st@ =~= trimmed_frames(old(st)@, options@));
            }
        },
        None => {},
    }
}

} // verus!
