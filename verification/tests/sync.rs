use masonry::data::{Computation, MasonryConfig, MasonryType};
use masonry::layout::Layout;
use masonry::sync::{Mailbox, LOCKED, UNLOCKED};

#[test]
fn new_mailbox_lets_the_sender_run() {
    let mailbox = Mailbox::new();
    assert_eq!(mailbox.main_thread(), UNLOCKED);
    assert_eq!(mailbox.worker_thread(), LOCKED);
    assert_eq!(mailbox.receive_output(), 0);
    assert_eq!((LOCKED, UNLOCKED), (0, 1));
}

#[test]
fn sleeping_worker_does_nothing() {
    let mut mailbox = Mailbox::new();
    let mut layout = Layout::new(5, 100, 10);
    assert!(!mailbox.run(&mut layout));
    assert_eq!(mailbox.main_thread(), UNLOCKED);
    assert_eq!(mailbox.worker_thread(), LOCKED);
    assert_eq!(mailbox.receive_output(), 0);
    assert_eq!(layout.get_transform(4).map(|t| t.top()), Some(0));
}

#[test]
fn request_is_served_by_the_next_turn_of_the_worker() {
    let mut mailbox = Mailbox::new();
    let mut layout = Layout::new(5, 300, 8);
    let request = Computation::new(250, MasonryConfig::new(MasonryType::Grid, 100, 10));
    mailbox.send_computation(request);
    assert_eq!(mailbox.main_thread(), LOCKED);
    assert_eq!(mailbox.worker_thread(), UNLOCKED);
    // Nothing is computed before the worker runs.
    assert_eq!(mailbox.receive_output(), 0);
    assert!(mailbox.run(&mut layout));
    assert_eq!(mailbox.main_thread(), UNLOCKED);
    assert_eq!(mailbox.worker_thread(), LOCKED);
    assert_eq!(mailbox.receive_output(), 166);
    assert_eq!(layout.thumbnail_size(), 100);
    assert_eq!(layout.get_transform(4).map(|t| (t.top(), t.left())), Some((83, 83)));
    // The request is gone: the worker sleeps again.
    assert!(!mailbox.run(&mut layout));
    assert_eq!(mailbox.receive_output(), 166);
}

#[test]
fn output_stays_until_the_next_request_is_served() {
    let mut mailbox = Mailbox::new();
    let mut layout = Layout::new(5, 300, 8);
    mailbox.send_computation(Computation::new(
        250,
        MasonryConfig::new(MasonryType::Grid, 100, 10),
    ));
    assert!(mailbox.run(&mut layout));
    layout.resize(7);
    mailbox.send_computation(Computation::new(
        250,
        MasonryConfig::new(MasonryType::Vertical, 100, 10),
    ));
    assert_eq!(mailbox.receive_output(), 166);
    assert!(mailbox.run(&mut layout));
    // Items without a ratio have no height: each column grows by the padding.
    assert_eq!(mailbox.receive_output(), 30);
}

#[test]
fn later_request_replaces_one_that_was_not_served() {
    let mut mailbox = Mailbox::new();
    let mut layout = Layout::new(6, 300, 8);
    mailbox.send_computation(Computation::new(
        250,
        MasonryConfig::new(MasonryType::Grid, 100, 10),
    ));
    mailbox.send_computation(Computation::new(
        1920,
        MasonryConfig::new(MasonryType::Grid, 1000, 8),
    ));
    assert!(mailbox.run(&mut layout));
    assert_eq!(mailbox.receive_output(), 1280);
    assert_eq!(layout.thumbnail_size(), 655);
}
