use homebridge_rusty_spotify::volume_fader::{FadeStart, FadeTick, VolumeFader, MAX_VOLUME, STEP_SIZE};

#[test]
fn fade_of_ten_seconds_makes_ten_calls() {
    let mut fader = VolumeFader::new();
    assert_eq!(
        fader.start("kitchen", 10),
        FadeStart::Begun { replaced: false, volume: 0, step_interval_ms: 1000 }
    );
    let mut volumes = Vec::new();
    let mut ticks = 0;
    loop {
        ticks += 1;
        match fader.tick("kitchen") {
            FadeTick::Step { volume, finished } => {
                volumes.push(volume);
                if finished {
                    break;
                }
            }
            FadeTick::Idle => panic!("the fade ended before it reached the maximum"),
        }
        assert!(ticks < 100);
    }
    assert_eq!(volumes, vec![10, 20, 30, 40, 50, 60, 70, 80, 90, 100]);
    // then it stops
    assert!(!fader.is_fading("kitchen"));
    assert_eq!(fader.tick("kitchen"), FadeTick::Idle);
    assert_eq!(fader.tick("kitchen"), FadeTick::Idle);
}

#[test]
fn cancel_after_third_call_prevents_the_rest() {
    let mut fader = VolumeFader::new();
    fader.start("kitchen", 10);
    assert_eq!(fader.tick("kitchen"), FadeTick::Step { volume: 10, finished: false });
    assert_eq!(fader.tick("kitchen"), FadeTick::Step { volume: 20, finished: false });
    assert_eq!(fader.tick("kitchen"), FadeTick::Step { volume: 30, finished: false });
    assert_eq!(fader.current_volume("kitchen"), Some(30));
    assert!(fader.cancel("kitchen"));
    for _ in 0..7 {
        assert_eq!(fader.tick("kitchen"), FadeTick::Idle);
    }
    assert_eq!(fader.current_volume("kitchen"), None);
}

#[test]
fn zero_duration_is_no_fade() {
    let mut fader = VolumeFader::new();
    assert_eq!(fader.start("kitchen", 0), FadeStart::Disabled { replaced: false });
    assert!(!fader.is_fading("kitchen"));
    assert_eq!(fader.tick("kitchen"), FadeTick::Idle);
}

#[test]
fn zero_duration_discards_a_running_fade() {
    let mut fader = VolumeFader::new();
    fader.start("kitchen", 5);
    fader.start("bath", 5);
    fader.tick("kitchen");
    // the second start cancels the first, and with fading disabled sets no timer of its own
    assert_eq!(fader.start("kitchen", 0), FadeStart::Disabled { replaced: true });
    assert_eq!(fader.current_volume("kitchen"), None);
    assert_eq!(fader.tick("kitchen"), FadeTick::Idle);
    assert_eq!(fader.current_volume("bath"), Some(0));
}

#[test]
fn timer_interval_is_the_step_interval_where_it_fits() {
    assert_eq!(VolumeFader::timer_millis(0), 0);
    assert_eq!(VolumeFader::timer_millis(1000), 1000);
    assert_eq!(VolumeFader::timer_millis(4_294_967_295), u32::MAX);
    assert_eq!(VolumeFader::timer_millis(4_294_967_296), u32::MAX);
    assert_eq!(VolumeFader::timer_millis(429_496_729_500), u32::MAX);
}

#[test]
fn second_start_cancels_the_first() {
    let mut fader = VolumeFader::new();
    assert_eq!(
        fader.start("kitchen", 10),
        FadeStart::Begun { replaced: false, volume: 0, step_interval_ms: 1000 }
    );
    fader.tick("kitchen");
    fader.tick("kitchen");
    assert_eq!(
        fader.start("kitchen", 20),
        FadeStart::Begun { replaced: true, volume: 0, step_interval_ms: 2000 }
    );
    // the ramp starts over: what the first fade had reached is gone
    assert_eq!(fader.current_volume("kitchen"), Some(0));
    assert_eq!(fader.tick("kitchen"), FadeTick::Step { volume: 10, finished: false });
}

#[test]
fn cancel_without_fade_is_harmless() {
    let mut fader = VolumeFader::new();
    assert!(!fader.cancel("kitchen"));
    fader.start("kitchen", 1);
    for _ in 0..10 {
        fader.tick("kitchen");
    }
    // the timer has fired its last tick already
    assert!(!fader.cancel("kitchen"));
}

#[test]
fn fades_of_two_devices_do_not_touch() {
    let mut fader = VolumeFader::new();
    fader.start("kitchen", 10);
    fader.start("bath", 30);
    fader.tick("kitchen");
    fader.tick("kitchen");
    fader.tick("bath");
    assert_eq!(fader.current_volume("kitchen"), Some(20));
    assert_eq!(fader.current_volume("bath"), Some(10));
    assert!(fader.cancel("kitchen"));
    assert_eq!(fader.tick("kitchen"), FadeTick::Idle);
    assert_eq!(fader.tick("bath"), FadeTick::Step { volume: 20, finished: false });
}

#[test]
fn step_interval_divides_the_duration_by_ten() {
    assert_eq!(MAX_VOLUME, 100);
    assert_eq!(STEP_SIZE, 10);
    let cases: [(u32, u64); 5] = [(1, 100), (3, 300), (10, 1000), (45, 4500), (u32::MAX, 429_496_729_500)];
    for (seconds, interval) in cases {
        let mut fader = VolumeFader::new();
        assert_eq!(
            fader.start("kitchen", seconds),
            FadeStart::Begun { replaced: false, volume: 0, step_interval_ms: interval }
        );
    }
}
