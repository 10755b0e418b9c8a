use scada::broadcast::{Change, Channel};
use scada::usage::{Percantage, SystemMonitorMessage};

fn msg(usage: u8) -> SystemMonitorMessage {
    SystemMonitorMessage { total_cpu_usage: Percantage(usage) }
}

#[test]
fn subscriber_reads_value_current_at_subscribe_time() {
    let mut channel = Channel::new(msg(0));
    assert!(channel.publish(msg(42)));
    let mut handle = channel.subscribe();
    assert_eq!(channel.read(&mut handle), msg(42));
    assert_eq!(channel.poll_change(&mut handle), Change::Pending);
}

#[test]
fn subscriber_of_a_fresh_channel_reads_the_initial_value() {
    let channel = Channel::new(msg(7));
    let mut handle = channel.subscribe();
    assert_eq!(channel.read(&mut handle), msg(7));
    assert_eq!(channel.version(), 0);
}

#[test]
fn two_publishes_before_asking_give_the_second() {
    let mut channel = Channel::new(msg(0));
    let mut handle = channel.subscribe();
    assert!(channel.publish(msg(11)));
    assert!(channel.publish(msg(22)));
    assert_eq!(channel.poll_change(&mut handle), Change::Changed(msg(22)));
    assert_eq!(channel.poll_change(&mut handle), Change::Pending);
}

#[test]
fn three_publishes_are_observed_in_order() {
    let mut channel = Channel::new(msg(0));
    let mut handle = channel.subscribe();
    let mut observed = Vec::new();
    for usage in [10u8, 20, 30] {
        assert!(channel.publish(msg(usage)));
        match channel.poll_change(&mut handle) {
            Change::Changed(m) => observed.push(m.total_cpu_usage.0),
            other => panic!("expected a change, got {:?}", other),
        }
    }
    assert_eq!(observed, vec![10, 20, 30]);
    assert_eq!(channel.poll_change(&mut handle), Change::Pending);
}

#[test]
fn close_resolves_every_waiting_subscriber() {
    let mut channel = Channel::new(msg(0));
    let mut first = channel.subscribe();
    assert!(channel.publish(msg(5)));
    let mut second = channel.subscribe();
    assert_eq!(channel.poll_change(&mut first), Change::Changed(msg(5)));
    assert_eq!(channel.poll_change(&mut first), Change::Pending);
    assert_eq!(channel.poll_change(&mut second), Change::Pending);
    channel.close();
    assert!(channel.is_closed());
    assert_eq!(channel.poll_change(&mut first), Change::Closed);
    assert_eq!(channel.poll_change(&mut second), Change::Closed);
    assert_eq!(channel.poll_change(&mut first), Change::Closed);
}

#[test]
fn unseen_value_is_delivered_before_closed() {
    let mut channel = Channel::new(msg(0));
    let mut handle = channel.subscribe();
    assert!(channel.publish(msg(9)));
    channel.close();
    assert_eq!(channel.poll_change(&mut handle), Change::Changed(msg(9)));
    assert_eq!(channel.poll_change(&mut handle), Change::Closed);
}

#[test]
fn closed_channel_refuses_to_publish() {
    let mut channel = Channel::new(msg(1));
    channel.close();
    assert!(!channel.publish(msg(2)));
    let mut handle = channel.subscribe();
    assert_eq!(channel.read(&mut handle), msg(1));
    assert_eq!(channel.version(), 0);
}

#[test]
fn read_marks_the_value_as_observed() {
    let mut channel = Channel::new(msg(0));
    let mut handle = channel.subscribe();
    assert!(channel.publish(msg(3)));
    assert_eq!(channel.read(&mut handle), msg(3));
    assert_eq!(channel.poll_change(&mut handle), Change::Pending);
    assert!(channel.publish(msg(4)));
    assert_eq!(channel.poll_change(&mut handle), Change::Changed(msg(4)));
}

#[test]
fn subscribers_do_not_disturb_each_other() {
    let mut channel = Channel::new(msg(0));
    let mut slow = channel.subscribe();
    let mut fast = channel.subscribe();
    assert!(channel.publish(msg(1)));
    assert_eq!(channel.poll_change(&mut fast), Change::Changed(msg(1)));
    assert!(channel.publish(msg(2)));
    assert_eq!(channel.poll_change(&mut fast), Change::Changed(msg(2)));
    assert!(channel.publish(msg(3)));
    assert_eq!(channel.poll_change(&mut slow), Change::Changed(msg(3)));
    assert_eq!(channel.poll_change(&mut fast), Change::Changed(msg(3)));
    assert_eq!(channel.version(), 3);
}
