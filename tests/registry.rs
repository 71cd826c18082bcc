use monitor::registry::SubscriberRegistry;
use std::sync::mpsc;

fn drain(rx: &mpsc::Receiver<String>) -> Vec<String> {
    let mut out = Vec::new();
    while let Ok(line) = rx.try_recv() {
        out.push(line);
    }
    out
}

#[test]
fn subscriber_sees_lines_in_order() {
    let mut reg = SubscriberRegistry::new();
    let rx = reg.subscribe();
    for line in ["hello", "world"] {
        let failed = reg.broadcast(&String::from(line));
        assert!(failed.is_empty());
    }
    assert_eq!(drain(&rx), vec![String::from("hello"), String::from("world")]);
}

#[test]
fn subscriber_receives_exactly_n_lines() {
    let mut reg = SubscriberRegistry::new();
    let rx = reg.subscribe();
    let lines: Vec<String> = (0..50).map(|i| format!("line {}", i)).collect();
    for line in &lines {
        reg.broadcast(line);
    }
    assert_eq!(drain(&rx), lines);
}

#[test]
fn late_subscriber_gets_no_replay() {
    let mut reg = SubscriberRegistry::new();
    let early = reg.subscribe();
    reg.broadcast(&String::from("one"));
    reg.broadcast(&String::from("two"));
    let late = reg.subscribe();
    reg.broadcast(&String::from("three"));
    assert_eq!(drain(&late), vec![String::from("three")]);
    assert_eq!(
        drain(&early),
        vec![String::from("one"), String::from("two"), String::from("three")]
    );
}

#[test]
fn broadcast_with_no_subscriber() {
    let mut reg = SubscriberRegistry::new();
    assert_eq!(reg.len(), 0);
    assert!(reg.broadcast(&String::from("nobody")).is_empty());
    assert_eq!(reg.len(), 0);
}

#[test]
fn two_subscribers_both_receive() {
    let mut reg = SubscriberRegistry::new();
    let a = reg.subscribe();
    let b = reg.subscribe();
    reg.broadcast(&String::from("x"));
    reg.broadcast(&String::from("y"));
    let expected = vec![String::from("x"), String::from("y")];
    assert_eq!(drain(&a), expected);
    assert_eq!(drain(&b), expected);
}

#[test]
fn dropped_subscriber_does_not_affect_other() {
    let mut reg = SubscriberRegistry::new();
    let a = reg.subscribe();
    let b = reg.subscribe();
    drop(b);
    let failed = reg.broadcast(&String::from("first"));
    assert_eq!(failed, vec![1]);
    assert_eq!(reg.len(), 1);
    let failed = reg.broadcast(&String::from("second"));
    assert!(failed.is_empty());
    assert_eq!(drain(&a), vec![String::from("first"), String::from("second")]);
}

#[test]
fn removal_keeps_the_right_subscribers() {
    let mut reg = SubscriberRegistry::new();
    let r0 = reg.subscribe();
    let r1 = reg.subscribe();
    let r2 = reg.subscribe();
    let r3 = reg.subscribe();
    let r4 = reg.subscribe();
    drop(r1);
    drop(r2);
    drop(r4);
    assert_eq!(reg.broadcast(&String::from("a")), vec![1, 2, 4]);
    assert_eq!(reg.len(), 2);
    assert!(reg.broadcast(&String::from("b")).is_empty());
    let expected = vec![String::from("a"), String::from("b")];
    assert_eq!(drain(&r0), expected);
    assert_eq!(drain(&r3), expected);
}

#[test]
fn registered_sender_receives() {
    let mut reg = SubscriberRegistry::new();
    let (tx, rx) = mpsc::channel();
    reg.register(tx);
    assert_eq!(reg.len(), 1);
    reg.broadcast(&String::from("via register"));
    assert_eq!(drain(&rx), vec![String::from("via register")]);
}

#[test]
fn classified_lines_reach_their_streams() {
    // A child that sends lines starting with "a" or "A" to stderr and the
    // others to stdout, as seen by one subscriber on each stream.
    let mut out = SubscriberRegistry::new();
    let mut err = SubscriberRegistry::new();
    let out_rx = out.subscribe();
    let err_rx = err.subscribe();
    for line in ["I", "am", "parrot!"] {
        if line.starts_with('a') || line.starts_with('A') {
            err.broadcast(&String::from(line));
        } else {
            out.broadcast(&String::from(line));
        }
    }
    assert_eq!(drain(&out_rx), vec![String::from("I"), String::from("parrot!")]);
    assert_eq!(drain(&err_rx), vec![String::from("am")]);
}

#[test]
fn retain_delivered_removes_exactly_the_refused() {
    let mut reg = SubscriberRegistry::new();
    let r0 = reg.subscribe();
    let _r1 = reg.subscribe();
    let r2 = reg.subscribe();
    let _r3 = reg.subscribe();
    let failed = reg.retain_delivered(&String::from("l"), &vec![true, false, true, false]);
    assert_eq!(failed, vec![1, 3]);
    assert_eq!(reg.len(), 2);
    reg.broadcast(&String::from("next"));
    assert_eq!(drain(&r0), vec![String::from("next")]);
    assert_eq!(drain(&r2), vec![String::from("next")]);
}

#[test]
fn retain_delivered_keeps_all_accepted() {
    let mut reg = SubscriberRegistry::new();
    let _a = reg.subscribe();
    let _b = reg.subscribe();
    assert!(reg.retain_delivered(&String::from("l"), &vec![true, true]).is_empty());
    assert_eq!(reg.len(), 2);
    assert_eq!(reg.retain_delivered(&String::from("m"), &vec![false, false]), vec![0, 1]);
    assert_eq!(reg.len(), 0);
}

#[test]
fn undrained_subscriber_does_not_block_another() {
    let mut reg = SubscriberRegistry::new();
    let _idle = reg.subscribe();
    let busy = reg.subscribe();
    let mut seen = Vec::new();
    for i in 0..1000 {
        let line = format!("{}", i);
        assert!(reg.broadcast(&line).is_empty());
        seen.extend(drain(&busy));
    }
    let expected: Vec<String> = (0..1000).map(|i| format!("{}", i)).collect();
    assert_eq!(seen, expected);
    assert_eq!(reg.len(), 2);
}
