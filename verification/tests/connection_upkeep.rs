use hazel::connection::{remove_subscriber, ReconnectBackoff, TIMEOUT_SEC};

#[test]
fn backoff_grows_per_failure_and_resets() {
    let mut b = ReconnectBackoff::new();
    assert_eq!(b.failures, 0);
    assert_eq!(b.on_failure(), TIMEOUT_SEC);
    assert_eq!(b.on_failure(), 20);
    assert_eq!(b.on_failure(), 30);
    b.on_connected();
    assert_eq!(b.failures, 0);
    assert_eq!(b.on_failure(), 10);
}

#[test]
fn removing_subscriber_keeps_others_in_order() {
    let mut subs: Vec<([u8; 16], &str)> = vec![([1; 16], "a"), ([2; 16], "b"), ([1; 16], "c"), ([3; 16], "d")];
    remove_subscriber(&mut subs, &[1; 16]);
    assert_eq!(subs, vec![([2; 16], "b"), ([3; 16], "d")]);
    remove_subscriber(&mut subs, &[9; 16]);
    assert_eq!(subs.len(), 2);
    remove_subscriber(&mut subs, &[3; 16]);
    assert_eq!(subs, vec![([2; 16], "b")]);
}
