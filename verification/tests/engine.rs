use std::sync::Arc;

use correlation::action::MessageAction;
use correlation::conditions::Builder;
use correlation::dispatcher::{
    ExitEventHandler, Handler, MessageEventHandler, Request, RequestHandle, RequestReactor,
    Response, TimerEventHandler,
};
use correlation::message::MessageBuilder;
use correlation::registry::{ContextConfig, ContextMap};
use correlation::timer::TimerEvent;

fn sample_action() -> MessageAction {
    MessageAction::new(
        "corr-uuid".to_string(),
        Some("correlated".to_string()),
        "seen {{[context.len]}} of {{alpha}}".to_string(),
        vec![("echo".to_string(), "{{[context.uuid]}}".to_string())],
    )
}

#[test]
fn closing_context_renders_the_correlated_message() {
    let conditions = Builder::new(100).max_size(1).patterns(vec!["a".to_string()]).build();
    let config = ContextConfig::new(conditions, false, Some("corr".to_string()), Some(sample_action()));
    let mut map = ContextMap::new(vec![config]);
    let message = Arc::new(
        MessageBuilder::new("a", "raw line").pair("alpha", "first").build(),
    );
    let responses = map.route_message(message);
    assert_eq!(responses.len(), 1);
    match &responses[0] {
        Response::Message(rendered) => {
            let out = rendered.message();
            assert_eq!(out.uuid, "corr-uuid");
            assert_eq!(out.name.as_deref(), Some("correlated"));
            assert_eq!(out.message, "seen 1 of first");
            assert_eq!(out.values.len(), 1);
            assert_eq!(out.values[0].0, "echo");
            assert_eq!(out.values[0].1.len(), 36);
        },
        Response::Exit => panic!("expected a correlated message"),
    }
    assert!(map.live[0].is_none());
}

#[test]
fn context_fires_at_most_once_and_never_reappears() {
    let conditions = Builder::new(100).max_size(2).patterns(vec!["a".to_string()]).build();
    let config = ContextConfig::new(conditions, false, None, Some(sample_action()));
    let mut map = ContextMap::new(vec![config]);
    let message = Arc::new(MessageBuilder::new("a", "raw line").build());

    let first = map.route_message(message.clone());
    assert_eq!(first.len(), 0);
    assert!(map.live[0].is_some());

    let second = map.route_message(message.clone());
    assert_eq!(second.len(), 1);
    assert!(map.live[0].is_none());

    let third = map.route_message(message.clone());
    assert_eq!(third.len(), 0);
    assert!(map.live[0].is_some());
}

#[test]
fn timer_reaps_a_context_that_times_out() {
    let conditions = Builder::new(30).patterns(vec!["a".to_string()]).build();
    let config = ContextConfig::new(conditions, false, None, Some(sample_action()));
    let mut map = ContextMap::new(vec![config]);
    let message = Arc::new(MessageBuilder::new("a", "raw line").build());

    assert_eq!(map.route_message(message).len(), 0);
    assert_eq!(map.route_timer(&TimerEvent(29)).len(), 0);
    assert!(map.live[0].is_some());
    let responses = map.route_timer(&TimerEvent(1));
    assert_eq!(responses.len(), 1);
    assert!(map.live[0].is_none());
}

#[test]
fn failed_render_drops_the_response_but_still_reaps_the_context() {
    let broken_action = MessageAction::new(
        "corr-uuid".to_string(),
        None,
        "{{#if}}".to_string(),
        Vec::new(),
    );
    let conditions = Builder::new(100).max_size(1).patterns(vec!["a".to_string()]).build();
    let config = ContextConfig::new(conditions, false, None, Some(broken_action));
    let mut map = ContextMap::new(vec![config]);
    let message = Arc::new(MessageBuilder::new("a", "raw line").build());
    let responses = map.route_message(message);
    assert_eq!(responses.len(), 0);
    assert!(map.live[0].is_none());
}

#[test]
fn context_without_action_closes_silently() {
    let conditions = Builder::new(100).max_size(1).patterns(vec!["a".to_string()]).build();
    let config = ContextConfig::new(conditions, false, None, None);
    let mut map = ContextMap::new(vec![config]);
    let message = Arc::new(MessageBuilder::new("a", "raw line").build());
    let responses = map.route_message(message);
    assert_eq!(responses.len(), 0);
    assert!(map.live[0].is_none());
}

#[test]
fn one_message_can_feed_several_contexts() {
    let first = ContextConfig::new(
        Builder::new(100).patterns(vec!["a".to_string()]).build(),
        false,
        None,
        None,
    );
    let second = ContextConfig::new(
        Builder::new(100).patterns(vec!["a".to_string(), "b".to_string()]).build(),
        false,
        None,
        None,
    );
    let mut map = ContextMap::new(vec![first, second]);
    let message = Arc::new(MessageBuilder::new("a", "raw line").build());
    map.route_message(message);
    assert!(map.live[0].is_some());
    assert!(map.live[1].is_some());
    let other = Arc::new(MessageBuilder::new("b", "raw line").build());
    map.route_message(other);
    assert!(map.live[0].is_some());
    assert!(map.live[1].is_some());
}

#[test]
fn reactor_routes_requests_to_registered_handlers() {
    let conditions = Builder::new(10).patterns(vec!["a".to_string()]).build();
    let config = ContextConfig::new(conditions, false, None, Some(sample_action()));
    let mut reactor = RequestReactor::new(ContextMap::new(vec![config]));
    reactor.register_handler(Handler::Message(MessageEventHandler));
    reactor.register_handler(Handler::Timer(TimerEventHandler));
    reactor.register_handler(Handler::Exit(ExitEventHandler));

    let message = Arc::new(MessageBuilder::new("a", "raw line").build());
    let responses = reactor.handle_events(vec![
        Request::Message(message),
        Request::Timer(TimerEvent(10)),
        Request::Exit,
    ]);
    assert_eq!(responses.len(), 2);
    assert!(matches!(responses[0], Response::Message(_)));
    assert!(matches!(responses[1], Response::Exit));
}

#[test]
fn request_without_handler_is_dropped_silently() {
    let conditions = Builder::new(10).patterns(vec!["a".to_string()]).build();
    let config = ContextConfig::new(conditions, false, None, Some(sample_action()));
    let mut reactor = RequestReactor::new(ContextMap::new(vec![config]));
    reactor.register_handler(Handler::Exit(ExitEventHandler));

    let message = Arc::new(MessageBuilder::new("a", "raw line").build());
    let responses = reactor.handle_events(vec![
        Request::Message(message),
        Request::Timer(TimerEvent(10)),
        Request::Exit,
    ]);
    assert_eq!(responses.len(), 1);
    assert!(matches!(responses[0], Response::Exit));
    assert!(reactor.context_map.live[0].is_none());
}

#[test]
fn registering_a_second_handler_replaces_the_first() {
    let mut reactor = RequestReactor::new(ContextMap::new(Vec::new()));
    reactor.register_handler(Handler::Exit(ExitEventHandler));
    reactor.register_handler(Handler::Exit(ExitEventHandler));
    let responses = reactor.handle_events(vec![Request::Exit, Request::Exit]);
    assert_eq!(responses.len(), 2);
    reactor.remove_handler_by_handle(&RequestHandle::Exit);
    let responses = reactor.handle_events(vec![Request::Exit]);
    assert_eq!(responses.len(), 0);
}

#[test]
fn request_handle_follows_the_request_kind() {
    let message = Arc::new(MessageBuilder::new("a", "raw line").build());
    assert_eq!(Request::Message(message).handle(), RequestHandle::Message);
    assert_eq!(Request::Timer(TimerEvent(1)).handle(), RequestHandle::Timer);
    assert_eq!(Request::Exit.handle(), RequestHandle::Exit);
}

#[test]
fn later_values_win_when_rendering_collected_pairs() {
    let action = MessageAction::new(
        "corr-uuid".to_string(),
        None,
        "{{alpha}}".to_string(),
        Vec::new(),
    );
    let conditions = Builder::new(100).max_size(2).patterns(vec!["a".to_string()]).build();
    let config = ContextConfig::new(conditions, false, None, Some(action));
    let mut map = ContextMap::new(vec![config]);
    let first = Arc::new(MessageBuilder::new("a", "raw").pair("alpha", "old").build());
    let second = Arc::new(MessageBuilder::new("a", "raw").pair("alpha", "new").build());
    assert_eq!(map.route_message(first).len(), 0);
    let responses = map.route_message(second);
    assert_eq!(responses.len(), 1);
    match &responses[0] {
        Response::Message(rendered) => assert_eq!(rendered.message().message, "new"),
        Response::Exit => panic!("expected a correlated message"),
    }
}
