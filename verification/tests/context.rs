use std::sync::Arc;

use correlation::conditions::Builder;
use correlation::context::Context;
use correlation::message::MessageBuilder;
use correlation::timer::TimerEvent;

#[test]
fn test_given_close_condition_with_timeout_when_the_timeout_expires_then_the_condition_is_met() {
    let timeout = 100;
    let msg_id = "1".to_string();
    let mut context = Context::new_linear(Builder::new(timeout).patterns(vec![msg_id.clone()]).build());
    let msg1 = MessageBuilder::new(&msg_id, "message").build();
    let event = Arc::new(msg1);
    println!("{:?}", &context);
    assert!(!context.is_open());
    context.on_message(event);
    assert!(context.is_open());
    context.on_timer(&TimerEvent(50));
    assert!(context.is_open());
    context.on_timer(&TimerEvent(49));
    assert!(context.is_open());
    context.on_timer(&TimerEvent(1));
    assert!(!context.is_open());
}

#[test]
fn test_given_close_condition_with_max_size_when_the_max_size_reached_then_the_condition_is_met() {
    let timeout = 100;
    let max_size = 3;
    let msg_id = "1".to_string();
    let mut context = Context::new_linear(
        Builder::new(timeout).max_size(max_size).patterns(vec![msg_id.clone()]).build(),
    );
    let msg1 = MessageBuilder::new(&msg_id, "message").build();
    let event = Arc::new(msg1);
    println!("{:?}", &context);
    context.on_message(event.clone());
    assert!(context.is_open());
    context.on_message(event.clone());
    assert!(context.is_open());
    context.on_message(event.clone());
    println!("{:?}", &context);
    assert!(!context.is_open());
}

#[test]
fn test_given_close_condition_with_renew_timeout_when_the_timeout_expires_without_renewing_messages_then_the_condition_is_met() {
    let timeout = 100;
    let renew_timeout = 10;
    let msg_id = "1".to_string();
    let mut context = Context::new_linear(
        Builder::new(timeout).renew_timeout(renew_timeout).patterns(vec![msg_id.clone()]).build(),
    );
    let msg1 = MessageBuilder::new(&msg_id, "message").build();
    let event = Arc::new(msg1);
    context.on_message(event.clone());
    assert!(context.is_open());
    context.on_timer(&TimerEvent(8));
    assert!(context.is_open());
    context.on_timer(&TimerEvent(1));
    assert!(context.is_open());
    context.on_timer(&TimerEvent(1));
    assert!(!context.is_open());
}

#[test]
fn test_given_close_condition_with_renew_timeout_when_the_timeout_expires_with_renewing_messages_then_the_context_is_not_closed() {
    let timeout = 100;
    let renew_timeout = 10;
    let msg_id = "1".to_string();
    let mut context = Context::new_linear(
        Builder::new(timeout).renew_timeout(renew_timeout).patterns(vec![msg_id.clone()]).build(),
    );
    let msg1 = MessageBuilder::new(&msg_id, "message").build();
    let event = Arc::new(msg1);
    assert!(!context.is_open());
    context.on_message(event.clone());
    assert!(context.is_open());
    context.on_timer(&TimerEvent(8));
    assert!(context.is_open());
    context.on_timer(&TimerEvent(1));
    assert!(context.is_open());
    context.on_message(event.clone());
    assert!(context.is_open());
    context.on_timer(&TimerEvent(1));
    assert!(context.is_open());
}

#[test]
fn timeout_closing_is_sum_based_over_tick_chunking() {
    let conditions = Builder::new(10).patterns(vec!["1".to_string()]).build();
    let mut in_one_chunk = Context::new_linear(conditions);
    let event = Arc::new(MessageBuilder::new("1", "message").build());
    in_one_chunk.on_message(event.clone());
    in_one_chunk.on_timer(&TimerEvent(10));
    assert!(!in_one_chunk.is_open());

    let conditions = Builder::new(10).patterns(vec!["1".to_string()]).build();
    let mut in_many_chunks = Context::new_linear(conditions);
    in_many_chunks.on_message(event.clone());
    for _ in 0..9 {
        in_many_chunks.on_timer(&TimerEvent(1));
        assert!(in_many_chunks.is_open());
    }
    in_many_chunks.on_timer(&TimerEvent(1));
    assert!(!in_many_chunks.is_open());
}

#[test]
fn closed_context_never_reopens_and_rejects_messages() {
    let conditions = Builder::new(100).max_size(1).patterns(vec!["1".to_string()]).build();
    let mut context = Context::new_linear(conditions);
    let event = Arc::new(MessageBuilder::new("1", "message").build());
    let fired = context.on_message(event.clone());
    assert!(fired.is_some());
    assert!(!context.is_open());
    assert!(context.on_message(event.clone()).is_none());
    assert!(!context.is_open());
    assert!(context.on_timer(&TimerEvent(1000)).is_none());
    assert!(!context.is_open());
}

#[test]
fn non_matching_message_is_not_absorbed() {
    let conditions = Builder::new(100).patterns(vec!["known".to_string()]).build();
    let mut context = Context::new_linear(conditions);
    let stranger = Arc::new(MessageBuilder::new("unknown", "message").build());
    context.on_message(stranger);
    assert!(!context.is_open());
    let known = Arc::new(MessageBuilder::new("known", "message").build());
    context.on_message(known);
    assert!(context.is_open());
}

#[test]
fn message_matches_by_name_as_well_as_by_uuid() {
    let conditions = Builder::new(100).patterns(vec!["app.started".to_string()]).build();
    let mut context = Context::new_linear(conditions);
    let named = Arc::new(
        MessageBuilder::new("0f9b1a", "message").name(Some("app.started".to_string())).build(),
    );
    context.on_message(named);
    assert!(context.is_open());
}

#[test]
fn keyed_context_closes_whole_context_when_one_bucket_reaches_its_limit() {
    let conditions = Builder::new(100).max_size(2).patterns(vec![
        "x".to_string(),
        "y".to_string(),
    ]).build();
    let mut context = Context::new_map(conditions);
    let x = Arc::new(MessageBuilder::new("x", "message").build());
    let y = Arc::new(MessageBuilder::new("y", "message").build());
    context.on_message(x.clone());
    assert!(context.is_open());
    context.on_message(y.clone());
    assert!(context.is_open());
    let fired = context.on_message(x.clone());
    assert!(fired.is_some());
    assert!(!context.is_open());
    assert!(context.on_message(y.clone()).is_none());
    assert!(!context.is_open());
}

#[test]
fn keyed_context_buckets_age_independently() {
    let conditions = Builder::new(100).renew_timeout(10).patterns(vec![
        "x".to_string(),
        "y".to_string(),
    ]).build();
    let mut context = Context::new_map(conditions);
    let x = Arc::new(MessageBuilder::new("x", "message").build());
    let y = Arc::new(MessageBuilder::new("y", "message").build());
    context.on_message(x.clone());
    context.on_timer(&TimerEvent(6));
    context.on_message(y.clone());
    assert!(context.is_open());
    let fired = context.on_timer(&TimerEvent(4));
    assert!(fired.is_some());
    assert!(!context.is_open());
}

#[test]
fn tick_counters_saturate_instead_of_wrapping() {
    let conditions = Builder::new(u32::MAX).patterns(vec!["1".to_string()]).build();
    let mut context = Context::new_linear(conditions);
    let event = Arc::new(MessageBuilder::new("1", "message").build());
    context.on_message(event);
    context.on_timer(&TimerEvent(u32::MAX - 1));
    assert!(context.is_open());
    context.on_timer(&TimerEvent(u32::MAX - 1));
    assert!(!context.is_open());
}
