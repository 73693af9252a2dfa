use dunnet::toggle::{new_toggle, ToggleWaiter, WaitStep};

#[test]
fn fresh_toggle_is_unset() {
    let (_sender, receiver) = new_toggle();
    assert!(!receiver.is_toggled());
    assert!(!receiver.clone().is_toggled());
}

#[test]
fn toggle_is_seen_by_every_receiver() {
    let (mut sender, receiver) = new_toggle();
    let cloned_before = receiver.clone();
    sender.toggle();
    let cloned_after = receiver.clone();
    assert!(receiver.is_toggled());
    assert!(cloned_before.is_toggled());
    assert!(cloned_after.is_toggled());
}

#[test]
fn toggle_twice_is_toggle_once() {
    let (mut sender, receiver) = new_toggle();
    sender.toggle();
    sender.toggle();
    assert!(receiver.is_toggled());
    assert!(receiver.is_toggled());
}

#[test]
fn separate_toggles_do_not_share_a_flag() {
    let (mut first_sender, first_receiver) = new_toggle();
    let (_second_sender, second_receiver) = new_toggle();
    first_sender.toggle();
    assert!(first_receiver.is_toggled());
    assert!(!second_receiver.is_toggled());
}

#[test]
fn wait_after_fire_resolves_without_parking() {
    let (mut sender, receiver) = new_toggle();
    let cloned_before = receiver.clone();
    sender.toggle();
    let cloned_after = receiver.clone();
    for observer in [&receiver, &cloned_before, &cloned_after] {
        let mut waiter = observer.wait();
        assert!(matches!(waiter, ToggleWaiter::Done));
        assert!(waiter.is_terminated());
        assert_eq!(waiter.poll(), WaitStep::Resolved);
        assert_eq!(waiter.poll(), WaitStep::Resolved);
    }
}

#[test]
fn wait_before_fire_parks_until_the_fire() {
    let (mut sender, receiver) = new_toggle();
    let mut waiter = receiver.wait();
    assert!(matches!(waiter, ToggleWaiter::Waiting { .. }));
    assert!(!waiter.is_terminated());
    assert_eq!(waiter.poll(), WaitStep::Parked);
    assert_eq!(waiter.poll(), WaitStep::Parked);
    assert!(!waiter.is_terminated());
    sender.toggle();
    assert_eq!(waiter.poll(), WaitStep::Resolved);
    assert!(waiter.is_terminated());
    assert_eq!(waiter.poll(), WaitStep::Resolved);
}

#[test]
fn waiter_outlives_its_receiver() {
    let (mut sender, receiver) = new_toggle();
    let mut waiter = receiver.wait();
    drop(receiver);
    assert_eq!(waiter.poll(), WaitStep::Parked);
    sender.toggle();
    assert_eq!(waiter.poll(), WaitStep::Resolved);
}

#[test]
fn waiter_for_follows_the_reading() {
    let (_sender, receiver) = new_toggle();
    assert!(matches!(receiver.waiter_for(true), ToggleWaiter::Done));
    assert!(matches!(receiver.waiter_for(false), ToggleWaiter::Waiting { .. }));
}

#[test]
fn advance_resolves_exactly_on_a_set_reading() {
    let (_sender, receiver) = new_toggle();
    let mut waiter = receiver.waiter_for(false);
    assert_eq!(waiter.advance(false), WaitStep::Parked);
    assert!(!waiter.is_terminated());
    assert_eq!(waiter.advance(true), WaitStep::Resolved);
    assert!(waiter.is_terminated());
    assert_eq!(waiter.advance(false), WaitStep::Resolved);
    assert!(waiter.is_terminated());
}
