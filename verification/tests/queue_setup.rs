use queue_rs::queue::Queue;

#[test]
fn test_queue_init() {
    let mut queue = Queue::new("test", redis::Client::open("redis://127.0.0.1/").unwrap());
    assert_eq!(queue.channel, "test");
    assert_eq!(queue.ttr, 300);
    assert_eq!(queue.delay, 0);
    assert_eq!(queue.attempts, 1);
    queue.delay(300);
    assert_eq!(queue.delay, 300);
}
