use event_prep::{classify_stacktrace, ClientOptions, Frame, Stacktrace};

fn named_frame(name: &str) -> Frame {
    Frame { function: Some(name.to_string()), package: None, in_app: None }
}

#[test]
fn classify_fallback_marks_everything_in_app() {
    let mut st = Stacktrace {
        frames: vec![named_frame("alpha::a"), named_frame("beta::b")],
    };
    classify_stacktrace(&mut st, &ClientOptions::default());
    assert_eq!(st.frames[0].in_app, Some(true));
    assert_eq!(st.frames[1].in_app, Some(true));
}

#[test]
fn classify_exclude_wins_over_include() {
    let mut options = ClientOptions::default();
    options.in_app_exclude = vec!["myapp".to_string()];
    options.in_app_include = vec!["myapp".to_string()];
    let mut st = Stacktrace { frames: vec![named_frame("myapp::run")] };
    classify_stacktrace(&mut st, &options);
    assert_eq!(st.frames[0].in_app, Some(false));
}

#[test]
fn classify_twice_gives_same_result() {
    let mut options = ClientOptions::default();
    options.in_app_include = vec!["good".to_string()];
    options.in_app_exclude = vec!["bad".to_string()];
    let mut st = Stacktrace {
        frames: vec![
            named_frame("good::a"),
            named_frame("bad::b"),
            named_frame("std::rt::lang_start"),
            named_frame("plain::c"),
            Frame { function: None, package: None, in_app: None },
        ],
    };
    classify_stacktrace(&mut st, &options);
    let once = st.clone();
    classify_stacktrace(&mut st, &options);
    assert_eq!(st, once);
}

#[test]
fn classify_infers_package_from_function_name() {
    let mut st = Stacktrace {
        frames: vec![named_frame("app::main"), named_frame("main")],
    };
    classify_stacktrace(&mut st, &ClientOptions::default());
    assert_eq!(st.frames[0].package, Some("app".to_string()));
    assert_eq!(st.frames[1].package, None);
}

#[test]
fn classify_keeps_existing_package() {
    let mut st = Stacktrace {
        frames: vec![Frame {
            function: Some("app::main".to_string()),
            package: Some("kept".to_string()),
            in_app: None,
        }],
    };
    classify_stacktrace(&mut st, &ClientOptions::default());
    assert_eq!(st.frames[0].package, Some("kept".to_string()));
}

#[test]
fn classify_explicit_flag_blocks_fallback_for_others() {
    let mut st = Stacktrace {
        frames: vec![
            Frame { function: Some("known::a".to_string()), package: None, in_app: Some(true) },
            named_frame("plain::b"),
        ],
    };
    classify_stacktrace(&mut st, &ClientOptions::default());
    assert_eq!(st.frames[0].in_app, Some(true));
    assert_eq!(st.frames[1].in_app, None);
}

#[test]
fn classify_explicit_false_survives_fallback() {
    let mut st = Stacktrace {
        frames: vec![
            Frame { function: Some("lib::a".to_string()), package: None, in_app: Some(false) },
            named_frame("plain::b"),
        ],
    };
    classify_stacktrace(&mut st, &ClientOptions::default());
    assert_eq!(st.frames[0].in_app, Some(false));
    assert_eq!(st.frames[1].in_app, Some(true));
}

#[test]
fn classify_include_match_leaves_others_unset() {
    let mut options = ClientOptions::default();
    options.in_app_include = vec!["mine".to_string()];
    let mut st = Stacktrace {
        frames: vec![named_frame("mine::a"), named_frame("plain::b")],
    };
    classify_stacktrace(&mut st, &options);
    assert_eq!(st.frames[0].in_app, Some(true));
    assert_eq!(st.frames[1].in_app, None);
}

#[test]
fn classify_sys_module_is_not_in_app() {
    let mut st = Stacktrace {
        frames: vec![named_frame("std::vec::Vec::push")],
    };
    classify_stacktrace(&mut st, &ClientOptions::default());
    assert_eq!(st.frames[0].in_app, Some(false));
}

#[test]
fn classify_fallback_fills_frame_without_function() {
    let mut st = Stacktrace {
        frames: vec![Frame { function: None, package: None, in_app: None }],
    };
    classify_stacktrace(&mut st, &ClientOptions::default());
    assert_eq!(st.frames[0].in_app, Some(true));
    assert_eq!(st.frames[0].package, None);
}
