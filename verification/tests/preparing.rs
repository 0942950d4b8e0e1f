use event_prep::{prepare_event, ClientOptions, Event, Exception, Frame, Scope, Stacktrace};

fn named_frame(name: &str) -> Frame {
    Frame { function: Some(name.to_string()), package: None, in_app: None }
}

fn event_with_platform(platform: &str) -> Event {
    Event {
        platform: platform.to_string(),
        exceptions: vec![],
        breadcrumbs: vec![],
        user: None,
        tags: vec![],
        extra: vec![],
    }
}

#[test]
fn prepare_corrects_platform_other() {
    let mut event = event_with_platform("other");
    prepare_event(&mut event, None, &ClientOptions::default());
    assert_eq!(event.platform, "native".to_string());
}

#[test]
fn prepare_leaves_other_platforms_untouched() {
    let mut event = event_with_platform("rust");
    prepare_event(&mut event, None, &ClientOptions::default());
    assert_eq!(event.platform, "rust".to_string());
}

#[test]
fn prepare_end_to_end() {
    let mut event = event_with_platform("rust");
    event.exceptions = vec![Exception {
        stacktrace: Some(Stacktrace {
            frames: vec![named_frame("app::main"), named_frame("std::rt::lang_start")],
        }),
    }];
    let options = ClientOptions::default();
    assert!(options.trim_backtraces);
    prepare_event(&mut event, None, &options);
    let st = event.exceptions[0].stacktrace.as_ref().unwrap();
    assert_eq!(st.frames.len(), 1);
    assert_eq!(st.frames[0].function, Some("app::main".to_string()));
    assert_eq!(st.frames[0].package, Some("app".to_string()));
    assert_eq!(st.frames[0].in_app, Some(true));
}

#[test]
fn prepare_with_trimming_disabled_keeps_marker_frame() {
    let mut event = event_with_platform("rust");
    event.exceptions = vec![Exception {
        stacktrace: Some(Stacktrace {
            frames: vec![named_frame("app::main"), named_frame("std::rt::lang_start")],
        }),
    }];
    let mut options = ClientOptions::default();
    options.trim_backtraces = false;
    prepare_event(&mut event, None, &options);
    let st = event.exceptions[0].stacktrace.as_ref().unwrap();
    assert_eq!(st.frames.len(), 2);
    assert_eq!(st.frames[0].in_app, Some(true));
    assert_eq!(st.frames[1].in_app, Some(false));
}

#[test]
fn prepare_merges_scope_before_classifying() {
    let mut event = event_with_platform("other");
    event.tags = vec![("env".to_string(), "dev".to_string())];
    let scope = Scope {
        user: None,
        extra: None,
        tags: Some(vec![("env".to_string(), "prod".to_string())]),
        breadcrumbs: vec![],
    };
    prepare_event(&mut event, Some(&scope), &ClientOptions::default());
    assert_eq!(event.platform, "native".to_string());
    assert_eq!(event.tags, vec![("env".to_string(), "prod".to_string())]);
}

#[test]
fn prepare_without_stacktrace_is_untouched() {
    let mut event = event_with_platform("rust");
    event.exceptions = vec![Exception { stacktrace: None }];
    prepare_event(&mut event, None, &ClientOptions::default());
    assert_eq!(event.exceptions[0].stacktrace, None);
}

#[test]
fn default_options_values() {
    let options = ClientOptions::default();
    assert_eq!(options.in_app_include.len(), 0);
    assert_eq!(options.in_app_exclude.len(), 0);
    assert_eq!(options.extra_border_frames.len(), 0);
    assert_eq!(options.max_breadcrumbs, 100);
    assert!(options.trim_backtraces);
}

#[test]
fn check_wf_detects_duplicate_keys() {
    let mut event = event_with_platform("rust");
    assert!(event.check_wf());
    event.tags = vec![
        ("k".to_string(), "a".to_string()),
        ("k".to_string(), "b".to_string()),
    ];
    assert!(!event.check_wf());
}
