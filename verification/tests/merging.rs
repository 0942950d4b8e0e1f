use event_prep::{merge_scope, Breadcrumb, Event, Scope, User};
use event_prep::kvmap::get_value;

fn empty_event() -> Event {
    Event {
        platform: "rust".to_string(),
        exceptions: vec![],
        breadcrumbs: vec![],
        user: None,
        tags: vec![],
        extra: vec![],
    }
}

fn empty_scope() -> Scope {
    Scope { user: None, extra: None, tags: None, breadcrumbs: vec![] }
}

fn crumb(msg: &str) -> Breadcrumb {
    Breadcrumb { message: msg.to_string() }
}

fn pair(k: &str, v: &str) -> (String, String) {
    (k.to_string(), v.to_string())
}

#[test]
fn merge_appends_breadcrumbs_in_order() {
    let mut event = empty_event();
    event.breadcrumbs = vec![crumb("one")];
    let mut scope = empty_scope();
    scope.breadcrumbs = vec![crumb("two"), crumb("three")];
    merge_scope(&mut event, &scope);
    let messages: Vec<String> = event.breadcrumbs.iter().map(|b| b.message.clone()).collect();
    assert_eq!(messages, vec!["one".to_string(), "two".to_string(), "three".to_string()]);
}

#[test]
fn merge_keeps_event_user() {
    let mut event = empty_event();
    event.user = Some(User { id: "event-user".to_string() });
    let mut scope = empty_scope();
    scope.user = Some(User { id: "scope-user".to_string() });
    merge_scope(&mut event, &scope);
    assert_eq!(event.user, Some(User { id: "event-user".to_string() }));
}

#[test]
fn merge_fills_absent_event_user() {
    let mut event = empty_event();
    let mut scope = empty_scope();
    scope.user = Some(User { id: "scope-user".to_string() });
    merge_scope(&mut event, &scope);
    assert_eq!(event.user, Some(User { id: "scope-user".to_string() }));
}

#[test]
fn merge_user_stays_absent_when_both_absent() {
    let mut event = empty_event();
    let scope = empty_scope();
    merge_scope(&mut event, &scope);
    assert_eq!(event.user, None);
}

#[test]
fn merge_scope_tag_overwrites_event_tag() {
    let mut event = empty_event();
    event.tags = vec![pair("env", "dev"), pair("release", "1.0")];
    let mut scope = empty_scope();
    scope.tags = Some(vec![pair("env", "prod")]);
    merge_scope(&mut event, &scope);
    assert_eq!(get_value(&event.tags, "env"), Some("prod".to_string()));
    assert_eq!(get_value(&event.tags, "release"), Some("1.0".to_string()));
    assert_eq!(event.tags.len(), 2);
}

#[test]
fn merge_new_extra_key_is_added() {
    let mut event = empty_event();
    event.extra = vec![pair("a", "1")];
    let mut scope = empty_scope();
    scope.extra = Some(vec![pair("b", "2")]);
    merge_scope(&mut event, &scope);
    assert_eq!(get_value(&event.extra, "a"), Some("1".to_string()));
    assert_eq!(get_value(&event.extra, "b"), Some("2".to_string()));
    assert_eq!(get_value(&event.extra, "c"), None);
}

#[test]
fn merge_absent_scope_maps_change_nothing() {
    let mut event = empty_event();
    event.tags = vec![pair("k", "v")];
    event.extra = vec![pair("e", "w")];
    let scope = empty_scope();
    merge_scope(&mut event, &scope);
    assert_eq!(event.tags, vec![pair("k", "v")]);
    assert_eq!(event.extra, vec![pair("e", "w")]);
}

#[test]
fn merge_leaves_platform_and_exceptions_alone() {
    let mut event = empty_event();
    let mut scope = empty_scope();
    scope.breadcrumbs = vec![crumb("x")];
    merge_scope(&mut event, &scope);
    assert_eq!(event.platform, "rust".to_string());
    assert_eq!(event.exceptions.len(), 0);
}
