use event_prep::{ClientOptions, Frame, Stacktrace};
use event_prep::trim_stacktrace;

fn named_frame(name: &str) -> Frame {
    Frame { function: Some(name.to_string()), package: None, in_app: None }
}

fn names_of(st: &Stacktrace) -> Vec<String> {
    st.frames.iter().map(|f| f.function.clone().unwrap_or_default()).collect()
}

#[test]
fn trim_truncates_at_marker() {
    let mut st = Stacktrace {
        frames: vec![
            named_frame("alpha::a"),
            named_frame("beta::b"),
            named_frame("std::rt::lang_start"),
            named_frame("gamma::c"),
            named_frame("delta::d"),
        ],
    };
    trim_stacktrace(&mut st, &ClientOptions::default());
    assert_eq!(names_of(&st), vec!["alpha::a".to_string(), "beta::b".to_string()]);
}

#[test]
fn trim_without_marker_is_noop() {
    let mut st = Stacktrace {
        frames: vec![named_frame("alpha::a"), named_frame("beta::b"), named_frame("gamma::c")],
    };
    trim_stacktrace(&mut st, &ClientOptions::default());
    assert_eq!(
        names_of(&st),
        vec!["alpha::a".to_string(), "beta::b".to_string(), "gamma::c".to_string()]
    );
}

#[test]
fn trim_marker_in_last_position() {
    let mut st = Stacktrace {
        frames: vec![named_frame("alpha::a"), named_frame("std::panicking::begin_panic")],
    };
    trim_stacktrace(&mut st, &ClientOptions::default());
    assert_eq!(names_of(&st), vec!["alpha::a".to_string()]);
}

#[test]
fn trim_marker_in_first_position_empties_trace() {
    let mut st = Stacktrace {
        frames: vec![named_frame("core::panicking::panic"), named_frame("alpha::a")],
    };
    trim_stacktrace(&mut st, &ClientOptions::default());
    assert_eq!(st.frames.len(), 0);
}

#[test]
fn trim_cuts_at_marker_nearest_the_end() {
    let mut st = Stacktrace {
        frames: vec![
            named_frame("std::rt::lang_start"),
            named_frame("alpha::a"),
            named_frame("std::rt::lang_start"),
            named_frame("beta::b"),
        ],
    };
    trim_stacktrace(&mut st, &ClientOptions::default());
    assert_eq!(
        names_of(&st),
        vec!["std::rt::lang_start".to_string(), "alpha::a".to_string()]
    );
}

#[test]
fn trim_uses_extra_border_frames() {
    let mut options = ClientOptions::default();
    options.extra_border_frames = vec!["mysdk::capture".to_string()];
    let mut st = Stacktrace {
        frames: vec![named_frame("alpha::a"), named_frame("mysdk::capture"), named_frame("beta::b")],
    };
    trim_stacktrace(&mut st, &options);
    assert_eq!(names_of(&st), vec!["alpha::a".to_string()]);
}

#[test]
fn trim_empty_stacktrace() {
    let mut st = Stacktrace { frames: vec![] };
    trim_stacktrace(&mut st, &ClientOptions::default());
    assert_eq!(st.frames.len(), 0);
}

#[test]
fn trim_ignores_frames_without_function() {
    let mut st = Stacktrace {
        frames: vec![
            named_frame("alpha::a"),
            Frame { function: None, package: None, in_app: None },
        ],
    };
    trim_stacktrace(&mut st, &ClientOptions::default());
    assert_eq!(st.frames.len(), 2);
}
