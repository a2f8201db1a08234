use hkstringgen::{
    acquire, motion_seconds, settle, Acquired, CharClass, ClassSelection, Generation,
    GenerationConfig, GenerationError, MotionMixer, Pause,
};

fn config(length: u8, classes: ClassSelection, allow: bool) -> GenerationConfig {
    GenerationConfig { length, classes, allow_motion_fallback: allow }
}

fn lowercase() -> ClassSelection {
    ClassSelection::none().with(CharClass::Lowercase)
}

#[test]
fn end_to_end_lowercase_from_os_bytes() {
    let cfg = config(8, lowercase(), false);
    let acquired = settle(vec![0u8, 25, 26, 51, 52, 77, 78, 103], true);
    assert!(!acquired.fallback_required);
    let g = Generation::begin(cfg, acquired).unwrap();
    assert!(!g.motion_pending());
    assert_eq!(g.finish(), Ok("azazazaz".to_string()));
}

#[test]
fn empty_selection_fails_before_entropy() {
    let cfg = config(8, ClassSelection::none(), true);
    assert!(matches!(Generation::start(cfg), Err(GenerationError::EmptyAlphabet)));
    let acquired = Acquired { buffer: vec![0u8; 8], fallback_required: true };
    assert!(matches!(Generation::begin(cfg, acquired), Err(GenerationError::EmptyAlphabet)));
}

#[test]
fn empty_selection_fails_whatever_the_length() {
    let cfg = config(0, ClassSelection::none(), false);
    assert!(matches!(Generation::start(cfg), Err(GenerationError::EmptyAlphabet)));
    let cfg = config(255, ClassSelection::none(), false);
    assert!(matches!(Generation::start(cfg), Err(GenerationError::EmptyAlphabet)));
}

#[test]
fn start_gives_string_of_requested_length() {
    for length in [1u8, 8, 255] {
        let sel = ClassSelection::none().with(CharClass::Numbers).with(CharClass::Special);
        let mut g = Generation::start(config(length, sel, false)).unwrap();
        // where the OS source fails the pointer would have to be sampled
        // first, which needs a display: feed it fresh readings instead
        let mut n: i32 = 0;
        while g.motion_pending() {
            n += 1;
            assert_eq!(g.feed_reading(Some((n, n))), Ok(Pause::AfterSample));
        }
        let s = g.finish().unwrap();
        assert_eq!(s.chars().count(), length as usize);
        let alphabet = hkstringgen::build_alphabet(&sel);
        assert!(s.bytes().all(|b| alphabet.contains(&b)));
    }
}

#[test]
fn acquire_fills_from_os() {
    let a = acquire(64);
    assert_eq!(a.buffer.len(), 64);
    if a.fallback_required {
        assert!(a.buffer.iter().all(|b| *b == 0));
    } else {
        assert!(a.buffer.iter().any(|b| *b != 0));
    }
}

#[test]
fn settle_failure_zeroes_buffer() {
    let a = settle(vec![5u8, 6, 7], false);
    assert!(a.fallback_required);
    assert_eq!(a.buffer, vec![0u8, 0, 0]);
    let b = settle(vec![5u8, 6, 7], true);
    assert!(!b.fallback_required);
    assert_eq!(b.buffer, vec![5u8, 6, 7]);
}

#[test]
fn motion_budget_doubles_on_fallback() {
    assert_eq!(motion_seconds(false), 10);
    assert_eq!(motion_seconds(true), 20);
}

#[test]
fn pause_lengths() {
    assert_eq!(Pause::AfterSample.millis(), 5);
    assert_eq!(Pause::AfterDuplicate.millis(), 10);
}

#[test]
fn mixer_round_robin_over_width() {
    let mut m = MotionMixer::new(1, 3);
    let mut buf = vec![0u8; 3];
    // alternate (1, 0) and (0, 1): every reading is new and adds 1
    for k in 0..7 {
        let (x, y) = if k % 2 == 0 { (1, 0) } else { (0, 1) };
        assert!(m.feed(&mut buf, x, y));
    }
    assert_eq!(buf, vec![3u8, 2, 2]);
}

#[test]
fn mixer_discards_repeated_reading() {
    let mut m = MotionMixer::new(1, 2);
    let mut buf = vec![10u8, 20];
    assert!(m.feed(&mut buf, 3, 4));
    assert_eq!(buf, vec![17u8, 20]);
    assert!(!m.feed(&mut buf, 3, 4));
    assert_eq!(buf, vec![17u8, 20]);
    // the index did not move: the next new reading lands on position 1
    assert!(m.feed(&mut buf, 4, 4));
    assert_eq!(buf, vec![17u8, 28]);
}

#[test]
fn mixer_first_reading_at_origin_is_accepted() {
    let mut m = MotionMixer::new(1, 2);
    let mut buf = vec![5u8, 6];
    assert!(m.feed(&mut buf, 0, 0));
    assert_eq!(buf, vec![5u8, 6]);
    // the origin counted as a sample: the next reading lands on position 1
    assert!(m.feed(&mut buf, 2, 1));
    assert_eq!(buf, vec![5u8, 9]);
    // and a repeat of the origin after it is a new position again
    assert!(!m.feed(&mut buf, 2, 1));
    assert!(m.feed(&mut buf, 0, 0));
    assert_eq!(buf, vec![5u8, 9]);
}

#[test]
fn mixer_signal_wraps() {
    let mut m = MotionMixer::new(1, 1);
    let mut buf = vec![250u8];
    // (-3 + 1) mod 256 = 254; 250 + 254 wraps to 248
    assert!(m.feed(&mut buf, -3, 1));
    assert_eq!(buf, vec![248u8]);
    // (300 + 0) mod 256 = 44; 248 + 44 wraps to 36
    assert!(m.feed(&mut buf, 300, 0));
    assert_eq!(buf, vec![36u8]);
    // extreme coordinates do not overflow: (i32::MAX + i32::MAX) mod 256 = 254
    assert!(m.feed(&mut buf, i32::MAX, i32::MAX));
    assert_eq!(buf, vec![34u8]);
}

#[test]
fn mixer_done_after_budget() {
    let mut m = MotionMixer::new(1, 4);
    let mut buf = vec![0u8; 4];
    let mut n: i32 = 0;
    while !m.is_done() {
        n += 1;
        assert!(m.feed(&mut buf, n, 0));
    }
    assert_eq!(n, 200);
    assert!(MotionMixer::new(0, 1).is_done());
}

#[test]
fn motion_failure_is_reported() {
    let cfg = config(4, lowercase(), true);
    let mut g = Generation::begin(cfg, settle(vec![1u8, 2, 3, 4], true)).unwrap();
    assert!(g.motion_pending());
    assert_eq!(g.feed_reading(None), Err(GenerationError::MotionUnavailable));
}

#[test]
fn optional_motion_then_finish() {
    let cfg = config(4, lowercase(), true);
    let mut g = Generation::begin(cfg, settle(vec![0u8, 0, 0, 0], true)).unwrap();
    let mut n: i32 = 0;
    while g.motion_pending() {
        n += 1;
        assert_eq!(g.feed_reading(Some((n, 0))), Ok(Pause::AfterSample));
        if g.motion_pending() {
            assert_eq!(g.feed_reading(Some((n, 0))), Ok(Pause::AfterDuplicate));
        }
    }
    assert_eq!(n, 2000);
    // position j received samples j+1, j+5, ...: 500 samples summing to 500*(j+1) + 4*(0+1+...+499)
    let expected: String = (0..4u32)
        .map(|j| {
            let sum: u32 = (0..500u32).map(|t| 4 * t + j + 1).sum();
            let byte = (sum % 256) as u8;
            (b'a' + byte % 26) as char
        })
        .collect();
    assert_eq!(g.finish(), Ok(expected));
}

#[test]
fn fallback_motion_runs_doubled_budget() {
    let cfg = config(2, lowercase(), false);
    let mut g = Generation::begin(cfg, settle(vec![9u8, 9], false)).unwrap();
    let mut n: i32 = 0;
    while g.motion_pending() {
        n += 1;
        assert_eq!(g.feed_reading(Some((0, n))), Ok(Pause::AfterSample));
    }
    assert_eq!(n, 4000);
    assert_eq!(g.finish().unwrap().len(), 2);
}
