use dot_games::inputs::POLL_CAPACITY;
use dot_games::{Direction, InputPeripheral, InputSignal, JoyStick, JoyStickSignal, XOrShiftPrng};

fn stick(horiz: i8, vert: i8, button: bool) -> JoyStickSignal {
    JoyStickSignal { horiz, vert, button }
}

#[test]
fn resting_stick_gives_no_event() {
    assert_eq!(JoyStick::classify(512, 512, false), None);
    assert_eq!(JoyStick::classify(600, 420, false), None);
}

#[test]
fn button_alone_gives_event() {
    assert_eq!(
        JoyStick::classify(512, 512, true),
        Some(InputSignal::JoyStick(stick(0, 0, true)))
    );
    assert_eq!(
        JoyStick::classify(0, 1023, true),
        Some(InputSignal::JoyStick(stick(-128, 127, true)))
    );
}

#[test]
fn threshold_is_strict() {
    // (712 - 512) / 4 == 50: at the threshold, no event.
    assert_eq!(JoyStick::classify(712, 512, false), None);
    assert_eq!(JoyStick::classify(715, 512, false), None);
    assert_eq!(
        JoyStick::classify(716, 512, false),
        Some(InputSignal::JoyStick(stick(51, 0, false)))
    );
    // (512 - 312) / 4 == 50 on the negative side.
    assert_eq!(JoyStick::classify(512, 312, false), None);
    assert_eq!(
        JoyStick::classify(512, 308, false),
        Some(InputSignal::JoyStick(stick(0, -51, false)))
    );
    // Division rounds towards zero: 511 is 0, not -1.
    assert_eq!(
        JoyStick::classify(511, 1000, false),
        Some(InputSignal::JoyStick(stick(0, 122, false)))
    );
}

#[test]
fn single_direction_picks_larger_axis() {
    assert_eq!(stick(-60, 20, false).to_single_direction(), Some(Direction::Left));
    assert_eq!(stick(90, -89, false).to_single_direction(), Some(Direction::Right));
    assert_eq!(stick(10, -70, false).to_single_direction(), Some(Direction::Down));
    assert_eq!(stick(-30, 51, false).to_single_direction(), Some(Direction::Up));
    assert_eq!(stick(50, -50, true).to_single_direction(), None);
    assert_eq!(stick(0, 0, false).to_single_direction(), None);
    assert_eq!(stick(-128, 0, false).to_single_direction(), Some(Direction::Left));
}

#[test]
fn single_direction_tie_goes_vertical() {
    assert_eq!(stick(60, 60, false).to_single_direction(), Some(Direction::Up));
    assert_eq!(stick(-70, -70, false).to_single_direction(), Some(Direction::Down));
    assert_eq!(stick(-70, 70, false).to_single_direction(), Some(Direction::Up));
}

fn event(n: usize) -> InputSignal {
    InputSignal::JoyStick(stick((n % 100) as i8, (n / 100) as i8, false))
}

#[test]
fn quiet_poll_leaves_empty_history() {
    let mut p = InputPeripheral::new();
    let samples = vec![None; 250];
    let h = p.poll(&samples);
    assert_eq!(h.len(), 0);
    assert_eq!(h.back(), None);
    assert_eq!(h.get(0), None);
}

#[test]
fn poll_keeps_events_in_order() {
    let mut p = InputPeripheral::new();
    let samples = vec![None, Some(event(1)), None, Some(event(2)), Some(event(3))];
    let h = p.poll(&samples);
    assert_eq!(h.len(), 3);
    assert_eq!(h.get(0), Some(event(1)));
    assert_eq!(h.get(2), Some(event(3)));
    assert_eq!(h.back(), Some(event(3)));
}

#[test]
fn full_poll_drops_oldest_first() {
    let mut p = InputPeripheral::new();
    let samples: Vec<Option<InputSignal>> = (0..150).map(|n| Some(event(n))).collect();
    let h = p.poll(&samples);
    assert_eq!(h.len(), POLL_CAPACITY);
    assert_eq!(h.get(0), Some(event(50)));
    assert_eq!(h.get(99), Some(event(149)));
    assert_eq!(h.back(), Some(event(149)));
    assert_eq!(h.get(100), None);
}

#[test]
fn poll_clears_previous_history() {
    let mut p = InputPeripheral::new();
    p.poll(&[Some(event(7)), Some(event(8))]);
    assert_eq!(p.history_array().len(), 2);
    let h = p.poll(&[None, Some(event(9))]);
    assert_eq!(h.len(), 1);
    assert_eq!(h.back(), Some(event(9)));
}

fn round() -> Vec<u16> {
    vec![0u16; usize::BITS as usize]
}

#[test]
fn generator_rotates_and_mixes_low_byte() {
    let bits = usize::BITS as usize;
    let mut rng = XOrShiftPrng::new(&round());
    let mut samples = round();
    samples[bits - 2] = 1;
    // The 1 mixed in is rotated once more by the last sample.
    assert_eq!(rng.generate(&samples), 2);
    let mut samples = round();
    samples[bits - 1] = 0x1ff;
    // The 2 goes round the whole word back to 2; only the low byte is mixed.
    assert_eq!(rng.generate(&samples), 2 ^ 0xff);
    let mut seed = round();
    seed[bits - 1] = 0xabcd;
    let mut fresh = XOrShiftPrng::new(&seed);
    assert_eq!(fresh.generate(&round()), 0xcd);
}

#[test]
fn generator_wraps_top_bit() {
    let bits = usize::BITS as usize;
    let mut samples = round();
    samples[0] = 1;
    let mut rng = XOrShiftPrng::new(&samples);
    // One full round of rotations brings the top bit back to the top.
    assert_eq!(rng.generate(&round()), 1usize << (bits - 1));
    let mut samples = round();
    samples[0] = 0x80;
    // The first rotation brings the top bit to the bottom.
    // 0x81, then turned right by one by the remaining rotations.
    assert_eq!(rng.generate(&samples), (1usize << (bits - 1)) | 0x40);
}

#[test]
fn record_one_sample_at_a_time() {
    let mut p = InputPeripheral::new();
    p.begin_poll();
    p.record(None);
    assert_eq!(p.history_array().len(), 0);
    for n in 0..101 {
        p.record(Some(event(n)));
    }
    p.record(None);
    let h = p.history_array();
    assert_eq!(h.len(), 100);
    assert_eq!(h.get(0), Some(event(1)));
    assert_eq!(h.back(), Some(event(100)));
    p.begin_poll();
    assert_eq!(p.history_array().len(), 0);
}
