use riot_tracker::dispatch::{Dispatcher, OutboundMessage};

fn msg(chat: i64, text: &str) -> OutboundMessage {
    OutboundMessage { chat, text: String::from(text) }
}

#[test]
fn failed_delivery_is_retried_then_settled() {
    let mut d = Dispatcher::new();
    d.enqueue(msg(1, "hello"));
    d.enqueue(msg(2, "world"));

    // first attempt at the front message fails: it is requeued at the back
    let taken = d.take_next().expect("a message is pending");
    assert_eq!(taken.chat, 1);
    assert_eq!(taken.text, "hello");
    d.requeue(taken);
    assert_eq!(d.len(), 2);

    // the other message is delivered and settled
    let taken = d.take_next().expect("a message is pending");
    assert_eq!(taken.chat, 2);
    assert_eq!(taken.text, "world");

    // the failed message comes round again; once accepted it is gone
    let taken = d.take_next().expect("the failed message is pending again");
    assert_eq!(taken.chat, 1);
    assert_eq!(taken.text, "hello");
    assert_eq!(d.len(), 0);
    assert!(d.take_next().is_none());
}

#[test]
fn queue_preserves_order_per_cycle() {
    let mut d = Dispatcher::new();
    d.enqueue(msg(7, "a"));
    d.enqueue(msg(7, "b"));
    d.enqueue(msg(8, "c"));
    let texts: Vec<String> = std::iter::from_fn(|| d.take_next().map(|m| m.text)).collect();
    assert_eq!(texts, vec!["a", "b", "c"]);
}
