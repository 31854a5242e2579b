use debouncer::{BtnState, Error, PinDebouncer, PortDebouncer};

fn feed_port<const N: usize, const BTNS: usize>(d: &mut PortDebouncer<N, BTNS>, value: u32, times: usize) {
    for _ in 0..times {
        d.update(value);
    }
}

fn feed_pin(d: &mut PinDebouncer, value: bool, times: usize) {
    for _ in 0..times {
        d.update(value);
    }
}

#[test]
fn port_update_reports_window_completion() {
    let mut d: PortDebouncer<4, 1> = PortDebouncer::new(20, 100);
    let completed: Vec<bool> = (0..8).map(|_| d.update(1)).collect();
    assert_eq!(completed, vec![false, false, false, true, false, false, false, true]);
}

#[test]
fn pin_update_reports_window_completion() {
    let mut d = PinDebouncer::new(3, 21, 99);
    let completed: Vec<bool> = (0..6).map(|_| d.update(true)).collect();
    assert_eq!(completed, vec![false, false, true, false, false, true]);
}

#[test]
fn port_uninitialized_pins_are_errors() {
    let mut d: PortDebouncer<4, 3> = PortDebouncer::new(20, 100);
    feed_port(&mut d, 0xFFFF_FFFF, 4);
    assert_eq!(d.get_state(3), Err(Error::BtnUninitialized));
    assert_eq!(d.get_state(31), Err(Error::BtnUninitialized));
    assert_eq!(d.get_state(usize::MAX), Err(Error::BtnUninitialized));
    assert_eq!(d.get_state(2), Ok(BtnState::ChangedToPressed));
}

#[test]
fn port_try_new_checks_timing() {
    assert!(PortDebouncer::<4, 1>::try_new(20, 100).is_ok());
    assert!(PortDebouncer::<4, 32>::try_new(0, 4).is_ok());
    assert_eq!(PortDebouncer::<4, 1>::try_new(20, 2).err(), Some(Error::InvalidTiming));
    assert_eq!(PortDebouncer::<4, 1>::try_new(20, 102).err(), Some(Error::InvalidTiming));
    assert_eq!(PortDebouncer::<4, 1>::try_new(21, 100).err(), Some(Error::InvalidTiming));
    assert_eq!(PortDebouncer::<0, 1>::try_new(0, 0).err(), Some(Error::InvalidTiming));
    let too_long = u32::MAX as usize + 1;
    assert_eq!(PortDebouncer::<1, 1>::try_new(too_long, 1).err(), Some(Error::InvalidTiming));
    assert!(PortDebouncer::<1, 1>::try_new(too_long - 1, 1).is_ok());
}

#[test]
fn pin_try_new_checks_timing() {
    assert!(PinDebouncer::try_new(4, 20, 100).is_ok());
    assert_eq!(PinDebouncer::try_new(0, 20, 100).err(), Some(Error::InvalidTiming));
    assert_eq!(PinDebouncer::try_new(4, 20, 2).err(), Some(Error::InvalidTiming));
    assert_eq!(PinDebouncer::try_new(4, 20, 102).err(), Some(Error::InvalidTiming));
    assert_eq!(PinDebouncer::try_new(4, 21, 100).err(), Some(Error::InvalidTiming));
    assert_eq!(PinDebouncer::try_new(1, u32::MAX, 2).err(), Some(Error::InvalidTiming));
    assert!(PinDebouncer::try_new(1, u32::MAX - 1, 2).is_ok());
}

#[test]
fn port_constant_low_pin_stays_unpressed() {
    let mut d: PortDebouncer<4, 2> = PortDebouncer::new(20, 100);
    // Pin 1 is active throughout, pin 0 never.
    for _ in 0..40 {
        d.update(2);
        assert_eq!(d.get_state(0), Ok(BtnState::UnPressed));
    }
}

#[test]
fn port_noisy_window_reads_unpressed() {
    let mut d: PortDebouncer<4, 1> = PortDebouncer::new(20, 100);
    for &v in [1u32, 1, 1, 1, 1, 1, 0, 1].iter() {
        d.update(v);
    }
    assert_eq!(d.get_state(0), Ok(BtnState::UnPressed));
}

#[test]
fn pin_constant_false_stays_unpressed() {
    let mut d = PinDebouncer::new(4, 20, 100);
    for _ in 0..40 {
        d.update(false);
        assert_eq!(d.get_state(), BtnState::UnPressed);
    }
}

#[test]
fn port_edge_is_reported_for_one_window() {
    let mut d: PortDebouncer<4, 1> = PortDebouncer::new(20, 100);
    feed_port(&mut d, 0, 4);
    feed_port(&mut d, 1, 4);
    assert_eq!(d.get_state(0), Ok(BtnState::ChangedToPressed));
    assert_eq!(d.get_state(0), Ok(BtnState::ChangedToPressed));
    feed_port(&mut d, 1, 3);
    assert_eq!(d.get_state(0), Ok(BtnState::ChangedToPressed));
    feed_port(&mut d, 1, 1);
    assert_eq!(d.get_state(0), Ok(BtnState::Pressed));
}

#[test]
fn pin_edge_is_reported_for_one_window() {
    let mut d = PinDebouncer::new(4, 20, 100);
    feed_pin(&mut d, false, 4);
    feed_pin(&mut d, true, 4);
    assert_eq!(d.get_state(), BtnState::ChangedToPressed);
    feed_pin(&mut d, true, 4);
    assert_eq!(d.get_state(), BtnState::Pressed);
}

#[test]
fn port_hold_starts_at_hold_threshold() {
    // hold 100 samples = 25 windows: the edge window and 24 more.
    let mut d: PortDebouncer<4, 1> = PortDebouncer::new(20, 100);
    feed_port(&mut d, 0, 4);
    feed_port(&mut d, 1, 4);
    feed_port(&mut d, 1, 4 * 23);
    assert_eq!(d.get_state(0), Ok(BtnState::Pressed));
    feed_port(&mut d, 1, 4);
    assert_eq!(d.get_state(0), Ok(BtnState::Hold));
}

#[test]
fn port_repeat_fires_periodically() {
    let mut d: PortDebouncer<4, 1> = PortDebouncer::new(20, 100);
    feed_port(&mut d, 0, 4);
    feed_port(&mut d, 1, 4);
    feed_port(&mut d, 1, 4 * 28);
    assert_eq!(d.get_state(0), Ok(BtnState::Hold));
    feed_port(&mut d, 1, 4);
    assert_eq!(d.get_state(0), Ok(BtnState::Repeat));
    assert_eq!(d.get_state(0), Ok(BtnState::Hold));
    for _ in 0..4 {
        feed_port(&mut d, 1, 4);
        assert_eq!(d.get_state(0), Ok(BtnState::Hold));
    }
    feed_port(&mut d, 1, 4);
    assert_eq!(d.get_state(0), Ok(BtnState::Repeat));
    assert_eq!(d.get_state(0), Ok(BtnState::Hold));
}

#[test]
fn pin_repeat_fires_periodically() {
    let mut d = PinDebouncer::new(4, 20, 100);
    feed_pin(&mut d, false, 4);
    feed_pin(&mut d, true, 4 * 30);
    assert_eq!(d.get_state(), BtnState::Repeat);
    assert_eq!(d.get_state(), BtnState::Hold);
    for _ in 0..4 {
        feed_pin(&mut d, true, 4);
        assert_eq!(d.get_state(), BtnState::Hold);
    }
    feed_pin(&mut d, true, 4);
    assert_eq!(d.get_state(), BtnState::Repeat);
    assert_eq!(d.get_state(), BtnState::Hold);
}

#[test]
fn port_release_resets_counter() {
    let mut d: PortDebouncer<4, 1> = PortDebouncer::new(20, 100);
    feed_port(&mut d, 1, 4 * 40);
    assert_eq!(d.get_state(0), Ok(BtnState::Repeat));
    feed_port(&mut d, 0, 4);
    assert_eq!(d.get_state(0), Ok(BtnState::UnPressed));
    // The counter restarted from zero: a new press goes through the edge and `Pressed`.
    feed_port(&mut d, 1, 4);
    assert_eq!(d.get_state(0), Ok(BtnState::ChangedToPressed));
    feed_port(&mut d, 1, 4);
    assert_eq!(d.get_state(0), Ok(BtnState::Pressed));
}

#[test]
fn pin_release_resets_counter() {
    let mut d = PinDebouncer::new(4, 20, 100);
    feed_pin(&mut d, true, 4 * 40);
    assert_eq!(d.get_state(), BtnState::Repeat);
    feed_pin(&mut d, false, 4);
    assert_eq!(d.get_state(), BtnState::UnPressed);
    feed_pin(&mut d, true, 4);
    assert_eq!(d.get_state(), BtnState::ChangedToPressed);
    feed_pin(&mut d, true, 4);
    assert_eq!(d.get_state(), BtnState::Pressed);
}

#[test]
fn pin_repeat_query_after_release_sample_does_not_underflow() {
    let mut d = PinDebouncer::new(4, 20, 100);
    feed_pin(&mut d, true, 4 * 30);
    // A release sample resets the counter before the pending `Repeat` is read.
    d.update(false);
    assert_eq!(d.get_state(), BtnState::Repeat);
    assert_eq!(d.get_state(), BtnState::Hold);
    feed_pin(&mut d, false, 3);
    assert_eq!(d.get_state(), BtnState::UnPressed);
}

#[test]
fn port_second_pin_scenario_leaves_first_pin_unpressed() {
    let mut d: PortDebouncer<4, 2> = PortDebouncer::new(20, 100);
    let steps: [(u32, usize, BtnState); 6] = [
        (0, 0, BtnState::UnPressed),
        (2, 4, BtnState::ChangedToPressed),
        (2, 88, BtnState::Pressed),
        (2, 8, BtnState::Hold),
        (2, 20, BtnState::Repeat),
        (0, 4, BtnState::UnPressed),
    ];
    for &v in [0u32, 2, 0, 2].iter() {
        d.update(v);
    }
    for &(value, times, expected) in steps.iter() {
        feed_port(&mut d, value, times);
        assert_eq!(d.get_state(1), Ok(expected));
        assert_eq!(d.get_state(0), Ok(BtnState::UnPressed));
        if expected == BtnState::Repeat {
            assert_eq!(d.get_state(1), Ok(BtnState::Hold));
        }
    }
}

#[test]
fn port_window_of_one_sample() {
    let mut d: PortDebouncer<1, 1> = PortDebouncer::new(1, 2);
    assert!(d.update(1));
    assert_eq!(d.get_state(0), Ok(BtnState::ChangedToPressed));
    assert!(d.update(1));
    assert_eq!(d.get_state(0), Ok(BtnState::Hold));
    assert!(d.update(1));
    assert_eq!(d.get_state(0), Ok(BtnState::Repeat));
    assert_eq!(d.get_state(0), Ok(BtnState::Hold));
}

#[test]
fn port_all_thirty_two_pins() {
    let mut d: PortDebouncer<2, 32> = PortDebouncer::new(2, 4);
    feed_port(&mut d, 0x8000_0001, 2);
    assert_eq!(d.get_state(0), Ok(BtnState::ChangedToPressed));
    assert_eq!(d.get_state(31), Ok(BtnState::ChangedToPressed));
    assert_eq!(d.get_state(15), Ok(BtnState::UnPressed));
    assert_eq!(d.get_state(32), Err(Error::BtnUninitialized));
}

#[test]
fn port_hold_of_one_window_needs_a_pressed_pin() {
    let mut d: PortDebouncer<4, 1> = PortDebouncer::new(20, 4);
    assert_eq!(d.get_state(0), Ok(BtnState::UnPressed));
    feed_port(&mut d, 0, 4);
    assert_eq!(d.get_state(0), Ok(BtnState::UnPressed));
    feed_port(&mut d, 1, 4);
    assert_eq!(d.get_state(0), Ok(BtnState::ChangedToPressed));
    feed_port(&mut d, 1, 4);
    assert_eq!(d.get_state(0), Ok(BtnState::Hold));
    feed_port(&mut d, 0, 4);
    assert_eq!(d.get_state(0), Ok(BtnState::UnPressed));
}

#[test]
fn port_inactive_window_reads_unpressed_with_zero_hold_and_repeat() {
    let mut d: PortDebouncer<1, 1> = PortDebouncer::new(0, 1);
    assert!(d.update(0));
    assert_eq!(d.get_state(0), Ok(BtnState::UnPressed));
    assert!(d.update(1));
    assert_eq!(d.get_state(0), Ok(BtnState::ChangedToPressed));
    assert!(d.update(1));
    assert_eq!(d.get_state(0), Ok(BtnState::Repeat));
    assert!(d.update(0));
    assert_eq!(d.get_state(0), Ok(BtnState::UnPressed));
}

#[test]
fn pin_window_is_pressed_only_when_every_sample_is_active() {
    let mut d = PinDebouncer::new(4, 20, 100);
    for &v in [false, true, true, true].iter() {
        d.update(v);
    }
    assert_eq!(d.get_state(), BtnState::UnPressed);
    feed_pin(&mut d, true, 3);
    assert_eq!(d.get_state(), BtnState::UnPressed);
    feed_pin(&mut d, true, 1);
    assert_eq!(d.get_state(), BtnState::ChangedToPressed);
}

#[test]
fn pin_window_of_one_sample() {
    let mut d = PinDebouncer::new(1, 0, 2);
    assert!(d.update(false));
    assert_eq!(d.get_state(), BtnState::UnPressed);
    assert!(d.update(false));
    assert_eq!(d.get_state(), BtnState::UnPressed);
    assert!(d.update(true));
    assert_eq!(d.get_state(), BtnState::ChangedToPressed);
    assert!(d.update(false));
    assert_eq!(d.get_state(), BtnState::UnPressed);
}

#[test]
fn pin_hold_equal_to_window_still_presses() {
    let mut d = PinDebouncer::new(4, 0, 4);
    feed_pin(&mut d, true, 4);
    assert_eq!(d.get_state(), BtnState::ChangedToPressed);
    feed_pin(&mut d, true, 4);
    assert_eq!(d.get_state(), BtnState::Repeat);
}

#[test]
fn pin_repeat_needs_the_repeat_time_again() {
    let mut d = PinDebouncer::new(1, 2, 1);
    d.update(true);
    assert_eq!(d.get_state(), BtnState::ChangedToPressed);
    d.update(true);
    assert_eq!(d.get_state(), BtnState::Repeat);
    assert_eq!(d.get_state(), BtnState::Hold);
    d.update(true);
    assert_eq!(d.get_state(), BtnState::Hold);
    d.update(true);
    assert_eq!(d.get_state(), BtnState::Repeat);
    for _ in 0..10 {
        d.update(true);
    }
    assert_eq!(d.get_state(), BtnState::Repeat);
    d.update(true);
    assert_eq!(d.get_state(), BtnState::Hold);
}

#[test]
fn port_inactive_completion_stays_unpressed_within_window() {
    let mut d: PortDebouncer<4, 1> = PortDebouncer::new(20, 100);
    feed_port(&mut d, 1, 4 * 40);
    assert_eq!(d.get_state(0), Ok(BtnState::Repeat));
    feed_port(&mut d, 1, 3);
    d.update(0);
    assert_eq!(d.get_state(0), Ok(BtnState::UnPressed));
    feed_port(&mut d, 1, 3);
    assert_eq!(d.get_state(0), Ok(BtnState::UnPressed));
}
