use condey::{Action, Event, Pipeline, Route, RouteBuildError, Stage};
use condey::{ExtractBody, ExtractClass, ExtractRequest, Method};

#[test]
fn body_then_head_parameter_succeeds_reading_body_once() {
    let mut p = Pipeline::new(vec![ExtractBody::takes_body(), ExtractRequest::takes_body()]);
    let mut actions = vec![];
    loop {
        let a = p.next_action();
        actions.push(a);
        let ev = match a {
            Action::ReadBody => Event::BodyRead,
            Action::Extract(_) => Event::Extracted(true),
            Action::Invoke => Event::Invoked,
            Action::Respond | Action::Reject(_) => Event::Responded,
            Action::Finish => break,
        };
        assert!(p.on_event(ev));
    }
    assert_eq!(
        actions,
        vec![
            Action::ReadBody,
            Action::Extract(0),
            Action::Extract(1),
            Action::Invoke,
            Action::Respond,
            Action::Finish
        ]
    );
    assert!(p.body_was_read());
}

#[test]
fn first_failure_short_circuits() {
    let mut p = Pipeline::new(vec![false, true, false]);
    assert_eq!(p.next_action(), Action::Extract(0));
    assert!(p.on_event(Event::Extracted(false)));
    assert_eq!(p.stage_now(), Stage::Failed(0));
    assert_eq!(p.next_action(), Action::Reject(0));
    assert!(!p.on_event(Event::Invoked));
    assert!(p.on_event(Event::Responded));
    assert_eq!(p.next_action(), Action::Finish);
    assert!(!p.body_was_read());
}

#[test]
fn no_parameters_invokes_at_once() {
    let p = Pipeline::new(vec![]);
    assert_eq!(p.next_action(), Action::Invoke);
}

#[test]
fn builder_needs_method_and_path() {
    let r = Route::builder().path("/x").handler(1u8);
    assert!(matches!(r, Err(RouteBuildError::MissingMethod)));
    let r = Route::builder().method(Method::Get).handler(1u8);
    assert!(matches!(r, Err(RouteBuildError::MissingPath)));
    let r = Route::builder()
        .description("d")
        .method(Method::Post)
        .path("/x")
        .handler(1u8)
        .unwrap();
    assert_eq!(r.method, Method::Post);
    assert_eq!(r.path, "/x");
    assert_eq!(r.description.as_deref(), Some("d"));
}
